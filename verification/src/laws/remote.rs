//! What happens on a request about a remote device.
use crate::drtio::{padded, Link, Packet, PacketView, Route};
use crate::laws::connection::is_failure;
use crate::laws::replies::task_owes;
use crate::laws::requests::{is_about, passes_on, waits};
use crate::laws::runs::{
    is_serving, last_turn, last_turn_from, lemma_performed_after, none_fails, reads_request, trail,
    trail_from, Events,
};
use crate::level::LevelFilter;
use crate::proto::{DrtioError, Error, Reply, ReplyView, Request, RequestView};
use crate::remote_coremgmt::{
    config_read_packet, config_remove_packet, config_write_fields, confirmed,
    debug_allocator_answered, piece, pull_log_packet, refused, transact,
};
use crate::step::{ActionView, Field, StepView, Task, TaskView};
use crate::worker::{EventView, SessionView, TurnView};
use vstd::prelude::*;
use vstd::utf8::{
    decode_utf8, decode_utf8_encode_utf8, encode_utf8, encode_utf8_decode_utf8,
    valid_utf8,
};

verus! {

/// The packet in which a request is passed on that a device has but to confirm, and
/// the reply with which the host is told of that.
pub open spec fn confirmable(request: RequestView, link: Link, capacity: nat) -> Option<
    (PacketView, ReplyView),
> {
    let destination = link.destination;
    match request {
        Request::ClearLog => Some(
            (Packet::CoreMgmtClearLogRequest { destination }, Reply::Success),
        ),
        Request::SetLogFilter(level) => Some(
            (
                Packet::CoreMgmtSetLogLevelRequest { destination, log_level: level.number() },
                Reply::Success,
            ),
        ),
        Request::SetUartLogFilter(level) => Some(
            (
                Packet::CoreMgmtSetUartLogLevelRequest { destination, log_level: level.number() },
                Reply::Success,
            ),
        ),
        Request::ConfigRemove { key } => Some(
            (config_remove_packet(link, capacity, key), Reply::Success),
        ),
        Request::ConfigErase => Some(
            (Packet::CoreMgmtConfigEraseRequest { destination }, Reply::Success),
        ),
        Request::Reboot => Some(
            (Packet::CoreMgmtRebootRequest { destination }, Reply::RebootImminent),
        ),
        _ => None,
    }
}

/// A request that a device has but to confirm is passed on in one packet. If it is
/// confirmed, the host is told so and the connection goes on.
pub proof fn law_confirmed_requests<T>(
    session: SessionView<T>,
    link: Link,
    request: RequestView,
    events: Events<T>,
)
    requires
        is_serving(session),
        session.can_serve(request),
        session.route() == Route::Remote(link),
        confirmable(request, link, session.capacity) is Some,
        events.len() == 3,
        events[0].1 == EventView::<T>::Request(request),
        events[1].1 == EventView::<T>::Answer(Ok(Packet::CoreMgmtAck)),
        none_fails(events, 2),
    ensures
        ({
            let (packet, reply) = confirmable(request, link, session.capacity)->0;
            trail(session, events) == seq![
                transact(link, packet),
                ActionView::Send(reply),
                ActionView::ReadRequest,
            ]
        }),
        last_turn(session, events) == reads_request(session),
{
    let (packet, reply) = confirmable(request, link, session.capacity)->0;
    let asked = session.advance(events[0].0, events[0].1);
    assert(asked->session.step.actions =~= seq![]);
    let answered = SessionView {
        step: confirmed::<T>(Ok(Packet::CoreMgmtAck), reply),
        ..asked->session
    };
    assert(asked->session.advance(events[1].0, events[1].1) == answered.go_on());
    lemma_performed_after(answered, events, 1);
    assert(trail(session, events) =~= seq![
        transact(link, packet),
        ActionView::Send(reply),
        ActionView::ReadRequest,
    ]);
}

/// The task waits for a packet of a device.
pub open spec fn waits_for_device(task: TaskView) -> bool {
    match task {
        Task::RemoteGetLog { .. } => true,
        Task::RemotePullLog { .. } => true,
        Task::RemoteConfigRead { .. } => true,
        Task::RemoteAck => true,
        Task::RemoteReboot => true,
        Task::RemoteDebugAllocator => true,
        _ => false,
    }
}

/// The answer is of no use to the task: there is none, or it is another packet than
/// it should be.
pub open spec fn is_refusal(task: TaskView, answer: Result<PacketView, DrtioError>) -> bool {
    answer is Ok ==> !task.expects(answer->Ok_0)
}

/// When a device does not answer, or answers with another packet than it should, a
/// host that is owed a reply is told of the failure. Either way the connection ends,
/// for want of a remote device.
pub proof fn law_refused_requests<T>(
    session: SessionView<T>,
    task: TaskView,
    answer: Result<PacketView, DrtioError>,
    events: Events<T>,
)
    requires
        session.step == StepView::<T>::resume(seq![], task),
        waits_for_device(task),
        is_refusal(task, answer),
        events.len() == 2,
        events[0].1 == EventView::<T>::Answer(answer),
        none_fails(events, 1),
    ensures
        session.accepts(events[0].1),
        trail(session, events) == (if task_owes(task) > 0 {
            seq![ActionView::Send(Reply::Error)]
        } else {
            seq![]
        }),
        last_turn(session, events) == TurnView::<T>::Return(Err(Error::DrtioError)),
{
    reveal_with_fuel(trail_from, 2);
    reveal_with_fuel(last_turn_from, 2);
    let turn = session.advance(events[0].0, events[0].1);
    if task_owes(task) > 0 {
        assert(turn == SessionView { step: refused::<T>(), ..session }.go_on());
        assert(turn->session.step.actions =~= seq![]);
        assert(trail(session, events) =~= seq![ActionView::Send(Reply::Error)]);
    }
}

/// A printout of the state of the allocator of a device is asked for in one packet.
/// If it is confirmed, the connection goes on without a reply.
pub proof fn law_remote_debug_allocator<T>(session: SessionView<T>, link: Link, events: Events<T>)
    requires
        is_serving(session),
        session.routed(),
        session.route() == Route::Remote(link),
        events.len() == 2,
        events[0].1 == EventView::<T>::Request(Request::DebugAllocator),
        events[1].1 == EventView::<T>::Answer(Ok(Packet::CoreMgmtAck)),
    ensures
        trail(session, events) == seq![
            transact(
                link,
                Packet::CoreMgmtAllocatorDebugRequest { destination: link.destination },
            ),
            ActionView::ReadRequest,
        ],
        last_turn(session, events) == reads_request(session),
{
    let asked = session.advance(events[0].0, events[0].1);
    assert(asked->session.step.actions =~= seq![]);
    let answered = SessionView {
        step: debug_allocator_answered::<T>(Ok(Packet::CoreMgmtAck)),
        ..asked->session
    };
    assert(asked->session.advance(events[1].0, events[1].1) == answered.go_on());
    lemma_performed_after(answered, events, 1);
}

/// A key as text and then its value as bytes are handed over to be sent piece by piece.
/// The host is told what came of it, and if that is a failure, the connection ends.
pub proof fn law_remote_config_write<T>(
    session: SessionView<T>,
    link: Link,
    key: Seq<char>,
    value: Seq<u8>,
    result: Result<(), DrtioError>,
    events: Events<T>,
)
    requires
        is_serving(session),
        session.routed(),
        session.route() == Route::Remote(link),
        events.len() == 3,
        events[0].1 == EventView::<T>::Request(Request::ConfigWrite { key, value }),
        events[1].1 == EventView::<T>::Transfer(result),
        none_fails(events, 2),
    ensures
        result is Ok ==> {
            &&& trail(session, events) == seq![
                ActionView::Transfer { link, message: seq![Field::Text(key), Field::Bytes(value)] },
                ActionView::Send(Reply::Success),
                ActionView::ReadRequest,
            ]
            &&& last_turn(session, events) == reads_request(session)
        },
        result is Err ==> {
            &&& trail(session, events) == seq![
                ActionView::Transfer { link, message: seq![Field::Text(key), Field::Bytes(value)] },
                ActionView::Send(Reply::Error),
            ]
            &&& last_turn(session, events) == TurnView::<T>::Return(Err(Error::DrtioError))
        },
{
    reveal_with_fuel(trail_from, 3);
    reveal_with_fuel(last_turn_from, 3);
    let asked = session.advance(events[0].0, events[0].1);
    assert(asked->session.step.actions =~= seq![]);
    let told = asked->session.advance(events[1].0, events[1].1);
    assert(told->session.step.actions =~= seq![]);
    if result is Ok {
        assert(trail(session, events) =~= seq![
            ActionView::Transfer { link, message: seq![Field::Text(key), Field::Bytes(value)] },
            ActionView::Send(Reply::Success),
            ActionView::ReadRequest,
        ]);
    } else {
        assert(trail(session, events) =~= seq![
            ActionView::Transfer { link, message: seq![Field::Text(key), Field::Bytes(value)] },
            ActionView::Send(Reply::Error),
        ]);
    }
}

/// The message that sets a key tells which key is set, and to what.
pub proof fn law_config_write_message_is_unambiguous(
    key: Seq<char>,
    value: Seq<u8>,
    other_key: Seq<char>,
    other_value: Seq<u8>,
)
    requires
        config_write_fields(key, value) == config_write_fields(other_key, other_value),
    ensures
        key == other_key,
        value == other_value,
{
    assert(config_write_fields(key, value)[0] == Field::<Seq<char>, Seq<u8>>::Text(key));
    assert(config_write_fields(other_key, other_value)[0] == Field::<Seq<char>, Seq<u8>>::Text(
        other_key,
    ));
    assert(config_write_fields(key, value)[1] == Field::<Seq<char>, Seq<u8>>::Bytes(value));
    assert(config_write_fields(other_key, other_value)[1] == Field::<Seq<char>, Seq<u8>>::Bytes(
        other_value,
    ));
}

/// A round of the endless transmission of the log of a device: the bytes go to the
/// host as the device sent them, and then the device is asked for more. It empties
/// its log each time.
pub proof fn law_remote_pull_log_round<T>(
    session: SessionView<T>,
    link: Link,
    last: bool,
    length: u16,
    data: Seq<u8>,
    events: Events<T>,
)
    requires
        session.step == StepView::<T>::resume(seq![], Task::RemotePullLog { link }),
        length <= data.len(),
        events.len() == 2,
        events[0].1 == EventView::<T>::Answer(
            Ok(Packet::CoreMgmtGetLogReply { last, length, data }),
        ),
        none_fails(events, 1),
    ensures
        trail(session, events) == seq![
            ActionView::SendBytes(piece(data, length)),
            transact(
                link,
                Packet::CoreMgmtGetLogRequest { destination: link.destination, clear: true },
            ),
        ],
        last_turn(session, events) matches TurnView::Perform { session: after, .. } && after
            == session,
{
    reveal_with_fuel(trail_from, 2);
    reveal_with_fuel(last_turn_from, 2);
    let sent = session.advance(events[0].0, events[0].1);
    let asked = sent->session.advance(events[1].0, events[1].1);
    assert(asked->session.step.actions =~= seq![]);
    assert(trail(session, events) =~= seq![
        ActionView::SendBytes(piece(data, length)),
        transact(link, pull_log_packet(link)),
    ]);
}

/// The packet is a piece of a log, and the last one or not.
pub open spec fn is_log_piece(packet: PacketView, is_last: bool) -> bool {
    packet matches Packet::CoreMgmtGetLogReply { last, length, data } && last == is_last && length
        <= data.len()
}

/// The packet is a piece of a value, and the last one or not.
pub open spec fn is_value_piece(packet: PacketView, is_last: bool) -> bool {
    packet matches Packet::CoreMgmtConfigReadReply { length, last, value } && last == is_last
        && length <= value.len()
}

/// The bytes that a piece of a log or of a value brings.
pub open spec fn bytes_of(packet: PacketView) -> Seq<u8> {
    match packet {
        Packet::CoreMgmtGetLogReply { length, data, .. } => piece(data, length),
        Packet::CoreMgmtConfigReadReply { length, value, .. } => piece(value, length),
        _ => seq![],
    }
}

/// The bytes that the pieces from the `i`-th on bring, one behind the other.
pub open spec fn bytes_from(packets: Seq<PacketView>, i: nat) -> Seq<u8>
    decreases packets.len() - i,
{
    if i < packets.len() {
        bytes_of(packets[i as int]) + bytes_from(packets, i + 1)
    } else {
        seq![]
    }
}

/// The events are a request, the packets with which a device answers, and that the
/// action after that does not fail.
pub open spec fn is_exchange<T>(
    events: Events<T>,
    request: RequestView,
    packets: Seq<PacketView>,
) -> bool {
    &&& events.len() == packets.len() + 2
    &&& events[0].1 == EventView::<T>::Request(request)
    &&& forall|i: int|
        1 <= i <= packets.len() ==> (#[trigger] events[i]).1 == EventView::<T>::Answer(
            Ok(packets[i - 1]),
        )
    &&& !is_failure(events.last().1)
}

/// A log that a device sends in pieces of text reaches the host whole and unchanged,
/// in one reply. The device is asked as often as there are pieces, and is told each
/// time to keep its log.
pub proof fn law_remote_get_log<T>(
    session: SessionView<T>,
    link: Link,
    packets: Seq<PacketView>,
    events: Events<T>,
)
    requires
        is_serving(session),
        session.routed(),
        session.route() == Route::Remote(link),
        packets.len() > 0,
        forall|i: int|
            0 <= i < packets.len() ==> is_log_piece(#[trigger] packets[i], i == packets.len() - 1)
                && valid_utf8(bytes_of(packets[i])),
        is_exchange(events, Request::GetLog, packets),
    ensures
        ({
            let text = decode_utf8(bytes_from(packets, 0));
            let question = transact(
                link,
                Packet::CoreMgmtGetLogRequest { destination: link.destination, clear: false },
            );
            &&& encode_utf8(text) == bytes_from(packets, 0)
            &&& trail(session, events) == Seq::new(packets.len(), |i: int| question) + seq![
                ActionView::Send(Reply::LogContent(text)),
                ActionView::ReadRequest,
            ]
        }),
        last_turn(session, events) == reads_request(session),
{
    let waiting = session.advance(events[0].0, events[0].1)->session;
    assert(waiting.step.actions =~= seq![]);
    let question = transact(
        link,
        Packet::CoreMgmtGetLogRequest { destination: link.destination, clear: false },
    );
    lemma_log_pieces(waiting, link, seq![], packets, events, 0);
    lemma_pieces_of_text(packets, 0);
    decode_utf8_encode_utf8(bytes_from(packets, 0));
    let text = decode_utf8(bytes_from(packets, 0));
    assert(seq![] + text =~= text);
    let rest = Seq::new((packets.len() - 1) as nat, |i: int| question);
    let tail = seq![ActionView::Send(Reply::LogContent(text)), ActionView::ReadRequest];
    assert(seq![question] + (rest + tail) =~= Seq::new(packets.len(), |i: int| question) + tail);
}

/// Pieces of text make a text.
proof fn lemma_pieces_of_text(packets: Seq<PacketView>, i: nat)
    requires
        i <= packets.len(),
        forall|i: int| 0 <= i < packets.len() ==> valid_utf8(bytes_of(#[trigger] packets[i])),
    ensures
        valid_utf8(bytes_from(packets, i)),
    decreases packets.len() - i,
{
    if i < packets.len() {
        lemma_pieces_of_text(packets, i + 1);
        vstd::utf8::valid_utf8_concat(bytes_of(packets[i as int]), bytes_from(packets, i + 1));
    }
}

/// From the `i`-th piece on, a log is put behind the text so far.
proof fn lemma_log_pieces<T>(
    session: SessionView<T>,
    link: Link,
    buffer: Seq<char>,
    packets: Seq<PacketView>,
    events: Events<T>,
    i: nat,
)
    requires
        session.step == StepView::<T>::resume(seq![], Task::RemoteGetLog { link, buffer }),
        i < packets.len(),
        forall|i: int|
            0 <= i < packets.len() ==> is_log_piece(#[trigger] packets[i], i == packets.len() - 1)
                && valid_utf8(bytes_of(packets[i])),
        is_exchange(events, Request::GetLog, packets),
    ensures
        ({
            let text = buffer + decode_utf8(bytes_from(packets, i));
            let question = transact(
                link,
                Packet::CoreMgmtGetLogRequest { destination: link.destination, clear: false },
            );
            let turn = session.advance(events[i as int + 1].0, events[i as int + 1].1);
            &&& trail_from(turn, events, i + 2) == Seq::new(
                (packets.len() - 1 - i) as nat,
                |i: int| question,
            ) + seq![ActionView::Send(Reply::LogContent(text)), ActionView::ReadRequest]
            &&& last_turn_from(turn, events, i + 2) == reads_request(session)
        }),
    decreases packets.len() - i,
{
    let question = transact(
        link,
        Packet::CoreMgmtGetLogRequest { destination: link.destination, clear: false },
    );
    let bytes = bytes_of(packets[i as int]);
    let text = buffer + decode_utf8(bytes);
    let turn = session.advance(events[i as int + 1].0, events[i as int + 1].1);
    assert(is_log_piece(packets[i as int], i == packets.len() - 1));
    assert(events[i as int + 1].1 == EventView::<T>::Answer(Ok(packets[i as int])));
    assert(turn->session.step.actions =~= seq![]);
    if i == packets.len() - 1 {
        reveal_with_fuel(trail_from, 2);
        reveal_with_fuel(last_turn_from, 2);
        assert(bytes_from(packets, i + 1) =~= seq![]);
        assert(bytes_from(packets, i) =~= bytes);
        let read = turn->session.advance(events[i as int + 2].0, events[i as int + 2].1);
        assert(read == reads_request(session));
        assert(trail_from(turn, events, i + 2) =~= seq![
            ActionView::Send(Reply::LogContent(text)),
            ActionView::ReadRequest,
        ]);
        assert(Seq::new(0, |i: int| question) + seq![
            ActionView::Send(Reply::LogContent(text)),
            ActionView::ReadRequest,
        ] =~= seq![ActionView::Send(Reply::LogContent(text)), ActionView::ReadRequest]);
    } else {
        lemma_log_pieces(turn->session, link, text, packets, events, i + 1);
        let rest = bytes_from(packets, i + 1);
        lemma_pieces_of_text(packets, i + 1);
        lemma_decode_concat(bytes, rest);
        assert(text + decode_utf8(rest) =~= buffer + decode_utf8(bytes_from(packets, i)));
        let tail = seq![
            ActionView::Send(Reply::LogContent(text + decode_utf8(rest))),
            ActionView::ReadRequest,
        ];
        assert(seq![question] + (Seq::new(
            (packets.len() - 2 - i) as nat,
            |i: int| question,
        ) + tail) =~= Seq::new((packets.len() - 1 - i) as nat, |i: int| question) + tail);
    }
}

/// Texts can be encoded one by one.
proof fn lemma_encode_concat(a: Seq<char>, b: Seq<char>)
    ensures
        encode_utf8(a + b) == encode_utf8(a) + encode_utf8(b),
    decreases a.len(),
{
    if a.len() == 0 {
        assert(a + b =~= b);
        assert(encode_utf8(a) + encode_utf8(b) =~= encode_utf8(b));
    } else {
        assert((a + b).drop_first() =~= a.drop_first() + b);
        lemma_encode_concat(a.drop_first(), b);
        assert(encode_utf8(a + b) =~= encode_utf8(a) + encode_utf8(b));
    }
}

/// Texts can be decoded one by one.
proof fn lemma_decode_concat(a: Seq<u8>, b: Seq<u8>)
    requires
        valid_utf8(a),
        valid_utf8(b),
    ensures
        decode_utf8(a + b) == decode_utf8(a) + decode_utf8(b),
{
    decode_utf8_encode_utf8(a);
    decode_utf8_encode_utf8(b);
    lemma_encode_concat(decode_utf8(a), decode_utf8(b));
    encode_utf8_decode_utf8(decode_utf8(a) + decode_utf8(b));
}

/// A piece of a log that is no text ends the connection, for want of a remote device,
/// without a reply.
pub proof fn law_remote_log_is_text<T>(
    session: SessionView<T>,
    link: Link,
    buffer: Seq<char>,
    packet: PacketView,
    is_last: bool,
    level: LevelFilter,
)
    requires
        session.step == StepView::<T>::resume(seq![], Task::RemoteGetLog { link, buffer }),
        is_log_piece(packet, is_last),
        !valid_utf8(bytes_of(packet)),
    ensures
        session.advance(level, EventView::<T>::Answer(Ok(packet))) == TurnView::<T>::Return(
            Err(Error::DrtioError),
        ),
{
}

/// A value that a device sends in pieces reaches the host whole and unchanged, in one
/// reply. The device is asked for the key once and then told to go on until it has
/// sent the last piece.
pub proof fn law_remote_config_read<T>(
    session: SessionView<T>,
    link: Link,
    key: Seq<char>,
    packets: Seq<PacketView>,
    events: Events<T>,
)
    requires
        is_serving(session),
        session.can_serve(Request::ConfigRead { key }),
        session.route() == Route::Remote(link),
        packets.len() > 0,
        forall|i: int|
            0 <= i < packets.len() ==> is_value_piece(#[trigger] packets[i], i == packets.len() - 1),
        is_exchange(events, Request::ConfigRead { key }, packets),
    ensures
        ({
            let go_on = transact(
                link,
                Packet::CoreMgmtConfigReadContinue { destination: link.destination },
            );
            trail(session, events) == seq![
                transact(link, config_read_packet(link, session.capacity, key)),
            ] + Seq::new((packets.len() - 1) as nat, |i: int| go_on) + seq![
                ActionView::Send(Reply::ConfigData(bytes_from(packets, 0))),
                ActionView::ReadRequest,
            ]
        }),
        last_turn(session, events) == reads_request(session),
{
    let waiting = session.advance(events[0].0, events[0].1)->session;
    assert(waiting.step.actions =~= seq![]);
    lemma_value_pieces(waiting, link, seq![], key, packets, events, 0);
    let bytes = bytes_from(packets, 0);
    assert(seq![] + bytes =~= bytes);
    let go_on = transact(
        link,
        Packet::CoreMgmtConfigReadContinue { destination: link.destination },
    );
    let first = seq![transact(link, config_read_packet(link, session.capacity, key))];
    let rest = Seq::new((packets.len() - 1) as nat, |i: int| go_on);
    let tail = seq![ActionView::Send(Reply::ConfigData(bytes)), ActionView::ReadRequest];
    assert(first + (rest + tail) =~= first + rest + tail);
}

/// From the `i`-th piece on, a value is put behind the bytes so far.
proof fn lemma_value_pieces<T>(
    session: SessionView<T>,
    link: Link,
    value: Seq<u8>,
    key: Seq<char>,
    packets: Seq<PacketView>,
    events: Events<T>,
    i: nat,
)
    requires
        session.step == StepView::<T>::resume(seq![], Task::RemoteConfigRead { link, value }),
        i < packets.len(),
        forall|i: int|
            0 <= i < packets.len() ==> is_value_piece(#[trigger] packets[i], i == packets.len() - 1),
        is_exchange(events, Request::ConfigRead { key }, packets),
    ensures
        ({
            let bytes = value + bytes_from(packets, i);
            let go_on = transact(
                link,
                Packet::CoreMgmtConfigReadContinue { destination: link.destination },
            );
            let turn = session.advance(events[i as int + 1].0, events[i as int + 1].1);
            &&& trail_from(turn, events, i + 2) == Seq::new(
                (packets.len() - 1 - i) as nat,
                |i: int| go_on,
            ) + seq![ActionView::Send(Reply::ConfigData(bytes)), ActionView::ReadRequest]
            &&& last_turn_from(turn, events, i + 2) == reads_request(session)
        }),
    decreases packets.len() - i,
{
    let go_on = transact(
        link,
        Packet::CoreMgmtConfigReadContinue { destination: link.destination },
    );
    let bytes = value + bytes_of(packets[i as int]);
    let turn = session.advance(events[i as int + 1].0, events[i as int + 1].1);
    assert(is_value_piece(packets[i as int], i == packets.len() - 1));
    assert(events[i as int + 1].1 == EventView::<T>::Answer(Ok(packets[i as int])));
    assert(turn->session.step.actions =~= seq![]);
    let rest = bytes_from(packets, i + 1);
    assert(bytes + rest =~= value + bytes_from(packets, i));
    if i == packets.len() - 1 {
        reveal_with_fuel(trail_from, 2);
        reveal_with_fuel(last_turn_from, 2);
        assert(rest =~= seq![]);
        assert(bytes + rest =~= bytes);
        let read = turn->session.advance(events[i as int + 2].0, events[i as int + 2].1);
        assert(read == reads_request(session));
        let tail = seq![ActionView::Send(Reply::ConfigData(bytes)), ActionView::ReadRequest];
        assert(trail_from(turn, events, i + 2) =~= tail);
        assert(Seq::new(0, |i: int| go_on) + tail =~= tail);
    } else {
        lemma_value_pieces(turn->session, link, bytes, key, packets, events, i + 1);
        let tail = seq![
            ActionView::Send(Reply::ConfigData(bytes + rest)),
            ActionView::ReadRequest,
        ];
        assert(seq![go_on] + (Seq::new((packets.len() - 2 - i) as nat, |i: int| go_on) + tail)
            =~= Seq::new((packets.len() - 1 - i) as nat, |i: int| go_on) + tail);
    }
}

/// How many bytes a piece of a log or of a value has.
pub open spec fn length_of(packet: PacketView) -> nat {
    match packet {
        Packet::CoreMgmtGetLogReply { length, .. } => length as nat,
        Packet::CoreMgmtConfigReadReply { length, .. } => length as nat,
        _ => 0,
    }
}

/// What a piece of a log or of a value lies at the front of.
pub open spec fn payload_of(packet: PacketView) -> Seq<u8> {
    match packet {
        Packet::CoreMgmtGetLogReply { data, .. } => data,
        Packet::CoreMgmtConfigReadReply { value, .. } => value,
        _ => Seq::empty(),
    }
}

/// How many bytes the first `n` pieces have together.
pub open spec fn lengths_of(packets: Seq<PacketView>, n: nat) -> nat
    decreases n,
{
    if n == 0 {
        0
    } else {
        lengths_of(packets, (n - 1) as nat) + length_of(packets[n - 1])
    }
}

/// The bytes are those of all pieces, one behind the other: as many as the lengths of
/// the pieces add up to, and each the byte that the device sent at its place.
pub open spec fn joins(bytes: Seq<u8>, packets: Seq<PacketView>) -> bool {
    &&& bytes.len() == lengths_of(packets, packets.len())
    &&& forall|k: int, j: int|
        0 <= k < packets.len() && 0 <= j < length_of(packets[k])
            ==> bytes[lengths_of(packets, k as nat) + j] == #[trigger] payload_of(packets[k])[j]
}

proof fn lemma_lengths_grow(packets: Seq<PacketView>, i: nat, k: nat)
    requires
        i <= k,
    ensures
        lengths_of(packets, i) <= lengths_of(packets, k),
    decreases k,
{
    if i < k {
        lemma_lengths_grow(packets, i, (k - 1) as nat);
    }
}

/// Where the bytes of the pieces from the `i`-th on come from.
proof fn lemma_bytes_by_index(packets: Seq<PacketView>, i: nat)
    requires
        i <= packets.len(),
        forall|k: int|
            0 <= k < packets.len() ==> length_of(#[trigger] packets[k]) <= payload_of(
                packets[k],
            ).len(),
    ensures
        bytes_from(packets, i).len() == lengths_of(packets, packets.len()) - lengths_of(packets, i),
        forall|k: int, j: int|
            i <= k < packets.len() && 0 <= j < length_of(packets[k]) ==> bytes_from(packets, i)[
            lengths_of(packets, k as nat) - lengths_of(packets, i) + j]
                == #[trigger] payload_of(packets[k])[j],
    decreases packets.len() - i,
{
    if i < packets.len() {
        lemma_bytes_by_index(packets, i + 1);
        let front = bytes_of(packets[i as int]);
        let rest = bytes_from(packets, i + 1);
        assert(length_of(packets[i as int]) <= payload_of(packets[i as int]).len());
        assert(front =~= payload_of(packets[i as int]).take(length_of(packets[i as int]) as int));
        assert forall|k: int, j: int|
            i <= k < packets.len() && 0 <= j < length_of(packets[k]) implies bytes_from(packets, i)[
        lengths_of(packets, k as nat) - lengths_of(packets, i) + j]
            == #[trigger] payload_of(packets[k])[j] by {
            if k > i {
                lemma_lengths_grow(packets, i + 1, k as nat);
                assert(rest[lengths_of(packets, k as nat) - lengths_of(packets, i + 1) + j]
                    == payload_of(packets[k])[j]);
                lemma_lengths_grow(packets, k as nat + 1, packets.len());
            }
        }
    }
}

/// A value that a device sends in any number of pieces reaches the host whole, in one
/// reply: no byte of a piece is left out, added or changed, whatever the bytes are. The
/// device is asked for the key once and told to go on after each piece but the last.
pub proof fn law_remote_value_is_whole<T>(
    session: SessionView<T>,
    link: Link,
    key: Seq<char>,
    packets: Seq<PacketView>,
    events: Events<T>,
)
    requires
        waits(session, TaskView::Serving),
        is_about(session, link),
        encode_utf8(key).len() <= session.capacity,
        packets.len() > 0,
        forall|i: int|
            0 <= i < packets.len() ==> {
                &&& (#[trigger] packets[i]) matches Packet::CoreMgmtConfigReadReply {
                    length,
                    last,
                    value,
                }
                &&& last == (i == packets.len() - 1)
                &&& length <= value.len()
            },
        is_exchange(events, Request::ConfigRead { key }, packets),
    ensures
        ({
            let actions = trail(session, events);
            let n = packets.len() as int;
            &&& actions.len() == n + 2
            &&& actions[0] matches ActionView::Transact { linkno, packet }
            &&& linkno == link.linkno
            &&& passes_on(packet, link, session.capacity, Request::ConfigRead { key })
            &&& forall|i: int|
                1 <= i < n ==> #[trigger] actions[i] == (ActionView::Transact {
                    linkno: link.linkno,
                    packet: Packet::CoreMgmtConfigReadContinue { destination: link.destination },
                })
            &&& actions[n] matches ActionView::Send(Reply::ConfigData(bytes))
            &&& joins(bytes, packets)
            &&& actions[n + 1] == ActionView::ReadRequest
        }),
{
    assert(session.step.actions =~= seq![]);
    assert forall|i: int| 0 <= i < packets.len() implies is_value_piece(
        #[trigger] packets[i],
        i == packets.len() - 1,
    ) && length_of(packets[i]) <= payload_of(packets[i]).len() by {}
    law_remote_config_read(session, link, key, packets, events);
    lemma_bytes_by_index(packets, 0);
    assert(joins(bytes_from(packets, 0), packets));
}

/// A log that a device sends in any number of pieces of text reaches the host whole, in
/// one reply: the text is made of the bytes of all pieces, none of them left out, added
/// or changed. The device is asked once for each piece, and keeps its log.
pub proof fn law_remote_log_is_whole<T>(
    session: SessionView<T>,
    link: Link,
    packets: Seq<PacketView>,
    events: Events<T>,
)
    requires
        waits(session, TaskView::Serving),
        is_about(session, link),
        packets.len() > 0,
        forall|i: int|
            0 <= i < packets.len() ==> {
                &&& (#[trigger] packets[i]) matches Packet::CoreMgmtGetLogReply {
                    last,
                    length,
                    data,
                }
                &&& last == (i == packets.len() - 1)
                &&& length <= data.len()
                &&& valid_utf8(data.take(length as int))
            },
        is_exchange(events, Request::GetLog, packets),
    ensures
        ({
            let actions = trail(session, events);
            let n = packets.len() as int;
            &&& actions.len() == n + 2
            &&& forall|i: int|
                0 <= i < n ==> #[trigger] actions[i] == (ActionView::Transact {
                    linkno: link.linkno,
                    packet: Packet::CoreMgmtGetLogRequest {
                        destination: link.destination,
                        clear: false,
                    },
                })
            &&& actions[n] matches ActionView::Send(Reply::LogContent(text))
            &&& joins(encode_utf8(text), packets)
            &&& actions[n + 1] == ActionView::ReadRequest
        }),
{
    assert(session.step.actions =~= seq![]);
    assert forall|i: int| 0 <= i < packets.len() implies is_log_piece(
        #[trigger] packets[i],
        i == packets.len() - 1,
    ) && valid_utf8(bytes_of(packets[i])) && length_of(packets[i]) <= payload_of(
        packets[i],
    ).len() by {
        assert(bytes_of(packets[i]) =~= payload_of(packets[i]).take(length_of(packets[i]) as int));
    }
    law_remote_get_log(session, link, packets, events);
    lemma_bytes_by_index(packets, 0);
    assert(joins(bytes_from(packets, 0), packets));
}

/// A device can read off the key that it is asked for, or that it is to remove, from
/// the packet, if the length of the key is one that two bytes can hold.
pub proof fn law_keys_can_be_read_off(link: Link, capacity: nat, key: Seq<char>)
    requires
        encode_utf8(key).len() <= capacity,
        encode_utf8(key).len() <= u16::MAX,
    ensures
        config_read_packet(link, capacity, key) matches Packet::CoreMgmtConfigReadRequest {
            length,
            key: payload,
            ..
        } && payload.len() == capacity && length <= capacity && decode_utf8(
            piece(payload, length),
        ) == key,
        config_remove_packet(link, capacity, key) matches Packet::CoreMgmtConfigRemoveRequest {
            length,
            key: payload,
            ..
        } && payload.len() == capacity && length <= capacity && decode_utf8(
            piece(payload, length),
        ) == key,
{
    let bytes = encode_utf8(key);
    let length = bytes.len() as u16;
    assert(piece(padded(bytes, capacity), length) =~= bytes);
    encode_utf8_decode_utf8(key);
}

/// A device can tell the levels apart by their numbers.
pub proof fn law_levels_can_be_told_apart(level: LevelFilter, other: LevelFilter)
    requires
        level.number() == other.number(),
    ensures
        level == other,
{
}

} // verus!
