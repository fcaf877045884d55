//! Remote devices: the packets that are exchanged with them and the way to them.
use vstd::prelude::*;
use vstd::utf8::{decode_utf8, encode_utf8, valid_utf8};

verus! {

/// A packet on the auxiliary channel of a link, as far as management goes.
#[derive(Debug, PartialEq, Eq)]
pub enum Packet<B = Vec<u8>> {
    CoreMgmtGetLogRequest { destination: u8, clear: bool },
    CoreMgmtClearLogRequest { destination: u8 },
    CoreMgmtSetLogLevelRequest { destination: u8, log_level: u8 },
    CoreMgmtSetUartLogLevelRequest { destination: u8, log_level: u8 },
    CoreMgmtConfigReadRequest { destination: u8, length: u16, key: B },
    CoreMgmtConfigReadContinue { destination: u8 },
    CoreMgmtConfigWriteRequest { destination: u8, length: u16, last: bool, data: B },
    CoreMgmtConfigRemoveRequest { destination: u8, length: u16, key: B },
    CoreMgmtConfigEraseRequest { destination: u8 },
    CoreMgmtRebootRequest { destination: u8 },
    CoreMgmtAllocatorDebugRequest { destination: u8 },
    CoreMgmtGetLogReply { last: bool, length: u16, data: B },
    CoreMgmtConfigReadReply { length: u16, last: bool, value: B },
    CoreMgmtAck,
    /// Any packet that is none of the above.
    Other,
}

pub type PacketView = Packet<Seq<u8>>;

impl View for Packet {
    type V = PacketView;

    open spec fn view(&self) -> PacketView {
        match *self {
            Packet::CoreMgmtGetLogRequest { destination, clear } =>
                Packet::CoreMgmtGetLogRequest { destination, clear },
            Packet::CoreMgmtClearLogRequest { destination } =>
                Packet::CoreMgmtClearLogRequest { destination },
            Packet::CoreMgmtSetLogLevelRequest { destination, log_level } =>
                Packet::CoreMgmtSetLogLevelRequest { destination, log_level },
            Packet::CoreMgmtSetUartLogLevelRequest { destination, log_level } =>
                Packet::CoreMgmtSetUartLogLevelRequest { destination, log_level },
            Packet::CoreMgmtConfigReadRequest { destination, length, key } =>
                Packet::CoreMgmtConfigReadRequest { destination, length, key: key@ },
            Packet::CoreMgmtConfigReadContinue { destination } =>
                Packet::CoreMgmtConfigReadContinue { destination },
            Packet::CoreMgmtConfigWriteRequest { destination, length, last, data } =>
                Packet::CoreMgmtConfigWriteRequest { destination, length, last, data: data@ },
            Packet::CoreMgmtConfigRemoveRequest { destination, length, key } =>
                Packet::CoreMgmtConfigRemoveRequest { destination, length, key: key@ },
            Packet::CoreMgmtConfigEraseRequest { destination } =>
                Packet::CoreMgmtConfigEraseRequest { destination },
            Packet::CoreMgmtRebootRequest { destination } =>
                Packet::CoreMgmtRebootRequest { destination },
            Packet::CoreMgmtAllocatorDebugRequest { destination } =>
                Packet::CoreMgmtAllocatorDebugRequest { destination },
            Packet::CoreMgmtGetLogReply { last, length, data } =>
                Packet::CoreMgmtGetLogReply { last, length, data: data@ },
            Packet::CoreMgmtConfigReadReply { length, last, value } =>
                Packet::CoreMgmtConfigReadReply { length, last, value: value@ },
            Packet::CoreMgmtAck => Packet::CoreMgmtAck,
            Packet::Other => Packet::Other,
        }
    }
}

impl Packet<Seq<u8>> {
    /// A piece of a log lies within its payload.
    pub open spec fn log_in_bounds(self) -> bool {
        self matches Packet::CoreMgmtGetLogReply { length, data, .. } ==> length <= data.len()
    }

    /// A piece of a value lies within its payload.
    pub open spec fn value_in_bounds(self) -> bool {
        self matches Packet::CoreMgmtConfigReadReply { length, value, .. } ==> length <= value.len()
    }
}

impl Packet {
    /// Whether a piece of a log lies within its payload.
    pub fn log_in_bounds(&self) -> (yes: bool)
        ensures
            yes == self@.log_in_bounds(),
    {
        match self {
            Packet::CoreMgmtGetLogReply { length, data, .. } => *length as usize <= data.len(),
            _ => true,
        }
    }

    /// Whether a piece of a value lies within its payload.
    pub fn value_in_bounds(&self) -> (yes: bool)
        ensures
            yes == self@.value_in_bounds(),
    {
        match self {
            Packet::CoreMgmtConfigReadReply { length, value, .. } => *length as usize <= value.len(),
            _ => true,
        }
    }
}

/// A remote device: the link that leads to it and its number.
#[derive(Clone, Copy, Debug, PartialEq, Eq, Structural)]
pub struct Link {
    pub linkno: u8,
    pub destination: u8,
}

/// The device that a connection is about.
#[derive(Clone, Copy, Debug, PartialEq, Eq, Structural)]
pub enum Route {
    Local,
    Remote(Link),
}

/// The hops on the way to each destination. A first hop of 0 stands for this
/// device, any other for the link with the number that is one less.
#[derive(Debug, PartialEq, Eq)]
pub struct RoutingTable(pub Vec<Vec<u8>>);

impl View for RoutingTable {
    type V = Seq<Seq<u8>>;

    open spec fn view(&self) -> Seq<Seq<u8>> {
        self.0@.map_values(|hops: Vec<u8>| hops@)
    }
}

/// The table has a first hop for the destination.
pub open spec fn covers(table: Seq<Seq<u8>>, destination: u8) -> bool {
    destination < table.len() && table[destination as int].len() > 0
}

/// Where the first hop leads.
pub open spec fn route_in(table: Seq<Seq<u8>>, destination: u8) -> Route {
    let hop = table[destination as int][0];
    if hop == 0 {
        Route::Local
    } else {
        Route::Remote(Link { linkno: (hop - 1) as u8, destination })
    }
}

impl RoutingTable {
    /// Whether the table has a first hop for the destination.
    pub fn covers(&self, destination: u8) -> (yes: bool)
        ensures
            yes == covers(self@, destination),
    {
        (destination as usize) < self.0.len() && self.0[destination as usize].len() > 0
    }

    /// The device behind a destination number.
    pub fn route(&self, destination: u8) -> (route: Route)
        requires
            covers(self@, destination),
        ensures
            route == route_in(self@, destination),
    {
        let hop: u8 = self.0[destination as usize][0];
        if hop == 0 {
            Route::Local
        } else {
            Route::Remote(Link { linkno: hop - 1, destination })
        }
    }
}

/// `bytes`, followed by zeros up to `capacity`.
pub open spec fn padded(bytes: Seq<u8>, capacity: nat) -> Seq<u8> {
    Seq::new(capacity, |i: int| if i < bytes.len() { bytes[i] } else { 0 })
}

/// A key as it lies in the payload of a packet.
pub fn key_payload(key: &str, capacity: usize) -> (payload: Vec<u8>)
    requires
        encode_utf8(key@).len() <= capacity,
    ensures
        payload@ == padded(encode_utf8(key@), capacity as nat),
{
    let mut payload: Vec<u8> = Vec::new();
    payload.extend_from_slice(key.as_bytes());
    let ghost bytes = payload@;
    assert(bytes =~= encode_utf8(key@));
    payload.resize(capacity, 0);
    assert(payload@.subrange(0, bytes.len() as int) == bytes);
    assert forall|i: int| 0 <= i < bytes.len() implies payload@[i] == bytes[i] by {
        assert(payload@.subrange(0, bytes.len() as int)[i] == bytes[i]);
    }
    assert(payload@ =~= padded(encode_utf8(key@), capacity as nat));
    payload
}

/// `core::str::from_utf8`: the text that the bytes encode, or nothing if they are
/// not valid UTF-8.
#[verifier::external_body]
pub(crate) fn from_utf8(bytes: &[u8]) -> (text: Option<&str>)
    ensures
        text is Some <==> valid_utf8(bytes@),
        text is Some ==> text->0@ == decode_utf8(bytes@),
{
    core::str::from_utf8(bytes).ok()
}

} // verus!
