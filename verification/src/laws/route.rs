//! The device that a connection is about.
use crate::drtio::{covers, route_in, Packet, PacketView, Route};
use crate::laws::connection::is_failure;
use crate::level::LevelFilter;
use crate::step::{Action, ActionView, Next, NextView, Task, TaskView};
use crate::worker::{resumed, EventView, SessionView, TurnView};
use vstd::prelude::*;

verus! {

/// The first hop decides: 0 is this device, and any other number is one more than that
/// of the link behind which the device is. Where the table has no first hop, there is no
/// way to the device.
pub proof fn law_first_hop_decides(table: Seq<Seq<u8>>, destination: u8)
    ensures
        covers(table, destination) <==> destination < table.len()
            && table[destination as int].len() > 0,
        covers(table, destination) ==> {
            let hop = table[destination as int][0];
            &&& hop == 0 <==> route_in(table, destination) == Route::Local
            &&& hop > 0 ==> {
                &&& route_in(table, destination) matches Route::Remote(link)
                &&& link.linkno + 1 == hop
                &&& link.destination == destination
            }
        },
{
}

/// A connection is about the device that the first hop to its number leads to, and about
/// this device where there is no table.
pub proof fn law_first_hop_decides_for_connection<T>(session: SessionView<T>)
    ensures
        match session.table {
            None => session.routed() && session.route() == Route::Local,
            Some(table) => {
                &&& session.routed() <==> session.destination < table.len()
                    && table[session.destination as int].len() > 0
                &&& session.routed() ==> {
                    let hop = table[session.destination as int][0];
                    &&& hop == 0 <==> session.route() == Route::Local
                    &&& hop > 0 ==> {
                        &&& session.route() matches Route::Remote(link)
                        &&& link.linkno + 1 == hop
                        &&& link.destination == session.destination
                    }
                }
            },
        },
{
}

/// Devices with different first hops are never taken for each other, and neither are two
/// remote devices with different numbers.
pub proof fn law_devices_are_told_apart(
    table: Seq<Seq<u8>>,
    destination: u8,
    other_table: Seq<Seq<u8>>,
    other: u8,
)
    requires
        covers(table, destination),
        covers(other_table, other),
        route_in(table, destination) == route_in(other_table, other),
    ensures
        table[destination as int][0] == other_table[other as int][0],
        table[destination as int][0] != 0 ==> destination == other,
{
}

/// The packet is a request to the device with the given number.
pub open spec fn is_addressed_to(packet: PacketView, number: u8) -> bool {
    match packet {
        Packet::CoreMgmtGetLogRequest { destination, .. } => destination == number,
        Packet::CoreMgmtClearLogRequest { destination } => destination == number,
        Packet::CoreMgmtSetLogLevelRequest { destination, .. } => destination == number,
        Packet::CoreMgmtSetUartLogLevelRequest { destination, .. } => destination == number,
        Packet::CoreMgmtConfigReadRequest { destination, .. } => destination == number,
        Packet::CoreMgmtConfigReadContinue { destination } => destination == number,
        Packet::CoreMgmtConfigWriteRequest { destination, .. } => destination == number,
        Packet::CoreMgmtConfigRemoveRequest { destination, .. } => destination == number,
        Packet::CoreMgmtConfigEraseRequest { destination } => destination == number,
        Packet::CoreMgmtRebootRequest { destination } => destination == number,
        Packet::CoreMgmtAllocatorDebugRequest { destination } => destination == number,
        _ => false,
    }
}

/// The action is one about the device, or one about the host.
pub open spec fn concerns(action: ActionView, route: Route) -> bool {
    match action {
        Action::ReadMagic => true,
        Action::ReadDestination => true,
        Action::Greet(_) => true,
        Action::ReadRequest => true,
        Action::Send(_) => true,
        Action::SendString(_) => true,
        Action::SendBytes(_) => true,
        Action::Flush => true,
        Action::Close => true,
        Action::Transact { linkno, packet } => route matches Route::Remote(link) && linkno
            == link.linkno && is_addressed_to(packet, link.destination),
        Action::Transfer { link, .. } => route == Route::Remote(link),
        _ => route is Local,
    }
}

/// The task is one about the device, or one about the host.
pub open spec fn task_concerns(task: TaskView, route: Route) -> bool {
    match task {
        Task::Greeting => true,
        Task::Serving => true,
        Task::LocalGetLog => route is Local,
        Task::LocalPullLog(_) => route is Local,
        Task::LocalPullAgain => route is Local,
        Task::LocalConfigRead => route is Local,
        Task::LocalConfigChange { .. } => route is Local,
        Task::RemoteGetLog { link, .. } => route == Route::Remote(link),
        Task::RemotePullLog { link } => route == Route::Remote(link),
        Task::RemoteConfigRead { link, .. } => route == Route::Remote(link),
        _ => route is Remote,
    }
}

/// All that the connection is about to do concerns the device that it is about.
pub open spec fn keeps_to_route<T>(session: SessionView<T>) -> bool {
    &&& forall|i: int|
        0 <= i < session.step.actions.len() ==> concerns(
            #[trigger] session.step.actions[i],
            session.route(),
        )
    &&& session.step.next matches Next::Resume(task) ==> task_concerns(task, session.route())
}

/// A connection keeps to the device whose number the host gave. If that is this
/// device, no packet is ever sent. If it is a remote one, all packets go to it over
/// the link of its first hop, and neither the log nor the configuration of this
/// device is touched. The number does not change once it has been read.
pub proof fn law_connection_keeps_to_route<T>(
    session: SessionView<T>,
    level: LevelFilter,
    event: EventView<T>,
)
    requires
        keeps_to_route(session),
        session.accepts(event),
    ensures
        session.advance(level, event) matches TurnView::Perform { action, session: after } ==> {
            &&& concerns(action, after.route())
            &&& keeps_to_route(after)
            &&& after.table == session.table
            &&& after.capacity == session.capacity
            &&& session.step.next != NextView::<T>::Resume(Task::Greeting) ==> after.destination
                == session.destination
        },
{
    if !is_failure(event) && session.step.actions.len() == 0 {
        if let Next::Resume(task) = session.step.next {
            let step = resumed(session.route(), session.capacity, level, task, event);
            assert(forall|i: int|
                0 <= i < step.actions.len() && task !is Greeting ==> concerns(
                    #[trigger] step.actions[i],
                    session.route(),
                ));
        }
    }
}

/// A connection that has just been opened keeps to its route.
pub proof fn law_opening_keeps_to_route<T>(table: Option<Seq<Seq<u8>>>, capacity: nat)
    ensures
        keeps_to_route(SessionView::<T>::opened(table, capacity)),
{
}

} // verus!
