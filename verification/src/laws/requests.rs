//! How a request is taken up.
use crate::drtio::{padded, Link, Packet, PacketView};
use crate::level::LevelFilter;
use crate::local_coremgmt;
use crate::proto::{Reply, Request, RequestView};
use crate::remote_coremgmt;
use crate::step::{ActionView, Field, Next, NextView, TaskView};
use crate::worker::{EventView, SessionView, TurnView};
use vstd::prelude::*;
use vstd::utf8::encode_utf8;

verus! {

/// There is no table, or the first hop to the device is 0.
pub open spec fn is_about_this_device<T>(session: SessionView<T>) -> bool {
    match session.table {
        Some(table) => {
            &&& session.destination < table.len()
            &&& table[session.destination as int].len() > 0
            &&& table[session.destination as int][0] == 0
        },
        None => true,
    }
}

/// The first hop to the device is the link, counted from 1.
pub open spec fn is_about<T>(session: SessionView<T>, link: Link) -> bool {
    match session.table {
        Some(table) => {
            &&& session.destination < table.len()
            &&& table[session.destination as int].len() > 0
            &&& table[session.destination as int][0] == link.linkno + 1
            &&& session.destination == link.destination
        },
        None => false,
    }
}

/// Nothing is left to be performed before the task gets the outcome of the action that
/// is being performed.
pub open spec fn waits<T>(session: SessionView<T>, task: TaskView) -> bool {
    session.step.actions.len() == 0 && session.step.next == NextView::<T>::Resume(task)
}

/// From the turn on the connection performs the actions, the first of them right away,
/// and goes on with `next` after the last. It is about the same device as before.
pub open spec fn performs_all<T>(
    turn: TurnView<T>,
    session: SessionView<T>,
    actions: Seq<ActionView>,
    next: NextView<T>,
) -> bool {
    &&& actions.len() > 0
    &&& turn matches TurnView::Perform { action, session: after }
    &&& action == actions[0]
    &&& after.step.actions.len() == actions.len() - 1
    &&& forall|i: int|
        0 < i < actions.len() ==> #[trigger] actions[i] == after.step.actions[i - 1]
    &&& after.step.next == next
    &&& after.table == session.table
    &&& after.capacity == session.capacity
    &&& after.destination == session.destination
}

/// What this device performs first on each request, and what it does after that.
pub proof fn law_local_requests<T>(
    session: SessionView<T>,
    level: LevelFilter,
    request: RequestView,
)
    requires
        waits(session, TaskView::Serving),
        is_about_this_device(session),
    ensures
        session.accepts(EventView::Request(request)),
        ({
            let turn = session.advance(level, EventView::Request(request));
            let done = NextView::<T>::Return(Ok(()));
            match request {
                Request::GetLog => performs_all(
                    turn,
                    session,
                    seq![ActionView::AcquireLog],
                    Next::Resume(TaskView::LocalGetLog),
                ),
                Request::ClearLog => performs_all(
                    turn,
                    session,
                    seq![
                        ActionView::AcquireLog,
                        ActionView::ClearLog,
                        ActionView::ReleaseLog,
                        ActionView::Send(Reply::Success),
                    ],
                    done,
                ),
                Request::PullLog => performs_all(
                    turn,
                    session,
                    seq![ActionView::AcquireLog],
                    Next::Resume(TaskView::LocalPullLog(level)),
                ),
                Request::SetLogFilter(filter) => performs_all(
                    turn,
                    session,
                    seq![ActionView::SetLogLevel(filter), ActionView::Send(Reply::Success)],
                    done,
                ),
                Request::SetUartLogFilter(filter) => performs_all(
                    turn,
                    session,
                    seq![ActionView::SetUartLogLevel(filter), ActionView::Send(Reply::Success)],
                    done,
                ),
                Request::ConfigRead { key } => performs_all(
                    turn,
                    session,
                    seq![ActionView::ReadConfig(key)],
                    Next::Resume(TaskView::LocalConfigRead),
                ),
                Request::ConfigWrite { key, value } => performs_all(
                    turn,
                    session,
                    seq![ActionView::WriteConfig { key, value }],
                    Next::Resume(TaskView::LocalConfigChange { restart: key == "idle_kernel"@ }),
                ),
                Request::ConfigRemove { key } => performs_all(
                    turn,
                    session,
                    seq![ActionView::RemoveConfig(key)],
                    Next::Resume(TaskView::LocalConfigChange { restart: key == "idle_kernel"@ }),
                ),
                Request::ConfigErase => performs_all(
                    turn,
                    session,
                    seq![ActionView::EraseConfig],
                    Next::Resume(TaskView::LocalConfigChange { restart: true }),
                ),
                Request::Reboot => performs_all(
                    turn,
                    session,
                    seq![
                        ActionView::Send(Reply::RebootImminent),
                        ActionView::Close,
                        ActionView::Flush,
                        ActionView::Reload,
                    ],
                    done,
                ),
                Request::DebugAllocator => performs_all(
                    turn,
                    session,
                    seq![ActionView::PrintAllocator],
                    done,
                ),
            }
        }),
{
}

/// A payload begins with the bytes that are put in it and has zeros behind them.
pub proof fn law_padding(bytes: Seq<u8>, capacity: nat)
    ensures
        padded(bytes, capacity).len() == capacity,
        forall|i: int|
            0 <= i < capacity ==> #[trigger] padded(bytes, capacity)[i] == if i < bytes.len() {
                bytes[i]
            } else {
                0
            },
{
}

/// The payload begins with the bytes of the key, has zeros behind them, and is as large
/// as a payload is.
pub open spec fn holds_key(payload: Seq<u8>, capacity: nat, key: Seq<char>) -> bool {
    let bytes = encode_utf8(key);
    &&& payload.len() == capacity
    &&& bytes.len() <= capacity
    &&& forall|i: int| 0 <= i < bytes.len() ==> #[trigger] payload[i] == bytes[i]
    &&& forall|i: int| bytes.len() <= i < capacity ==> #[trigger] payload[i] == 0
}

/// The packet in which each request is passed on over the link.
pub open spec fn passes_on(
    packet: PacketView,
    link: Link,
    capacity: nat,
    request: RequestView,
) -> bool {
    let number = link.destination;
    match request {
        Request::GetLog => packet == (PacketView::CoreMgmtGetLogRequest {
            destination: number,
            clear: false,
        }),
        Request::ClearLog => packet == (PacketView::CoreMgmtClearLogRequest {
            destination: number,
        }),
        Request::PullLog => packet == (PacketView::CoreMgmtGetLogRequest {
            destination: number,
            clear: true,
        }),
        Request::SetLogFilter(level) => packet == (PacketView::CoreMgmtSetLogLevelRequest {
            destination: number,
            log_level: level.number(),
        }),
        Request::SetUartLogFilter(level) => packet == (PacketView::CoreMgmtSetUartLogLevelRequest {
            destination: number,
            log_level: level.number(),
        }),
        Request::ConfigRead { key } => {
            &&& packet matches Packet::CoreMgmtConfigReadRequest {
                destination,
                length,
                key: payload,
            }
            &&& destination == number
            &&& length == encode_utf8(key).len() as u16
            &&& holds_key(payload, capacity, key)
        },
        Request::ConfigRemove { key } => {
            &&& packet matches Packet::CoreMgmtConfigRemoveRequest {
                destination,
                length,
                key: payload,
            }
            &&& destination == number
            &&& length == encode_utf8(key).len() as u16
            &&& holds_key(payload, capacity, key)
        },
        Request::ConfigErase => packet == (PacketView::CoreMgmtConfigEraseRequest {
            destination: number,
        }),
        Request::Reboot => packet == (PacketView::CoreMgmtRebootRequest { destination: number }),
        Request::DebugAllocator => packet == (PacketView::CoreMgmtAllocatorDebugRequest {
            destination: number,
        }),
        Request::ConfigWrite { .. } => false,
    }
}

/// What waits for the answer to the packet in which a request is passed on.
pub open spec fn task_of(request: RequestView, link: Link) -> TaskView {
    match request {
        Request::GetLog => TaskView::RemoteGetLog { link, buffer: Seq::empty() },
        Request::PullLog => TaskView::RemotePullLog { link },
        Request::ConfigRead { .. } => TaskView::RemoteConfigRead { link, value: Seq::empty() },
        Request::ConfigWrite { .. } => TaskView::RemoteConfigWrite,
        Request::Reboot => TaskView::RemoteReboot,
        Request::DebugAllocator => TaskView::RemoteDebugAllocator,
        _ => TaskView::RemoteAck,
    }
}

/// The key of a request that has to fit a packet does.
pub open spec fn key_fits(request: RequestView, capacity: nat) -> bool {
    match request {
        Request::ConfigRead { key } => encode_utf8(key).len() <= capacity,
        Request::ConfigRemove { key } => encode_utf8(key).len() <= capacity,
        _ => true,
    }
}

/// A request about a remote device is passed on over the link of the first hop, in the
/// packet that is meant for it, and this device does nothing else. Only a key and its
/// value go in a message, the key as text and behind it the value as bytes.
pub proof fn law_remote_requests<T>(
    session: SessionView<T>,
    link: Link,
    level: LevelFilter,
    request: RequestView,
)
    requires
        waits(session, TaskView::Serving),
        is_about(session, link),
        key_fits(request, session.capacity),
    ensures
        session.accepts(EventView::Request(request)),
        ({
            let turn = session.advance(level, EventView::Request(request));
            let action = turn->action;
            &&& performs_all(turn, session, seq![action], Next::Resume(task_of(request, link)))
            &&& match request {
                Request::ConfigWrite { key, value } => {
                    &&& action matches ActionView::Transfer { link: way, message }
                    &&& way == link
                    &&& message.len() == 2
                    &&& message[0] == Field::<Seq<char>, Seq<u8>>::Text(key)
                    &&& message[1] == Field::<Seq<char>, Seq<u8>>::Bytes(value)
                },
                _ => {
                    &&& action matches ActionView::Transact { linkno, packet }
                    &&& linkno == link.linkno
                    &&& passes_on(packet, link, session.capacity, request)
                },
            }
        }),
{
}

/// The levels are numbered from `Off` to `Trace` on a link.
pub proof fn law_numbers_of_levels(level: LevelFilter)
    ensures
        level.number() == match level {
            LevelFilter::Off => 0u8,
            LevelFilter::Error => 1,
            LevelFilter::Warn => 2,
            LevelFilter::Info => 3,
            LevelFilter::Debug => 4,
            LevelFilter::Trace => 5,
        },
{
}

/// A connection takes up each request with the handler of that name, for the device
/// that it is about.
pub proof fn law_requests_have_their_handlers<T>(
    session: SessionView<T>,
    link: Link,
    level: LevelFilter,
    request: RequestView,
)
    requires
        waits(session, TaskView::Serving),
    ensures
        is_about_this_device(session) ==> session.advance(level, EventView::Request(request))
            == (SessionView {
            step: match request {
                Request::GetLog => local_coremgmt::get_log_step::<T>(),
                Request::ClearLog => local_coremgmt::clear_log_step(),
                Request::PullLog => local_coremgmt::pull_log_step(level),
                Request::SetLogFilter(filter) => local_coremgmt::set_log_filter_step(filter),
                Request::SetUartLogFilter(filter) => {
                    local_coremgmt::set_uart_log_filter_step(filter)
                },
                Request::ConfigRead { key } => local_coremgmt::config_read_step(key),
                Request::ConfigWrite { key, value } => {
                    local_coremgmt::config_write_step(key, value)
                },
                Request::ConfigRemove { key } => local_coremgmt::config_remove_step(key),
                Request::ConfigErase => local_coremgmt::config_erase_step(),
                Request::Reboot => local_coremgmt::reboot_step(),
                Request::DebugAllocator => local_coremgmt::debug_allocator_step(),
            },
            ..session
        }).go_on(),
        is_about(session, link) ==> session.advance(level, EventView::Request(request)) == (
        SessionView {
            step: match request {
                Request::GetLog => remote_coremgmt::get_log_step::<T>(link, seq![]),
                Request::ClearLog => remote_coremgmt::clear_log_step(link),
                Request::PullLog => remote_coremgmt::pull_log_step(link),
                Request::SetLogFilter(filter) => remote_coremgmt::set_log_filter_step(link, filter),
                Request::SetUartLogFilter(filter) => {
                    remote_coremgmt::set_uart_log_filter_step(link, filter)
                },
                Request::ConfigRead { key } => {
                    remote_coremgmt::config_read_step(link, session.capacity, key)
                },
                Request::ConfigWrite { key, value } => {
                    remote_coremgmt::config_write_step(link, key, value)
                },
                Request::ConfigRemove { key } => {
                    remote_coremgmt::config_remove_step(link, session.capacity, key)
                },
                Request::ConfigErase => remote_coremgmt::config_erase_step(link),
                Request::Reboot => remote_coremgmt::reboot_step(link),
                Request::DebugAllocator => remote_coremgmt::debug_allocator_step(link),
            },
            ..session
        }).go_on(),
{
}

} // verus!
