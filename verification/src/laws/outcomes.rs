//! What becomes of the outcome of an action.
use crate::drtio::{Link, Packet, PacketView};
use crate::laws::requests::{is_about, is_about_this_device, key_fits, performs_all, waits};
use crate::level::LevelFilter;
use crate::listener::reported;
use crate::local_coremgmt;
use crate::proto::{DrtioError, Error, IoError, Reply, Request};
use crate::remote_coremgmt;
use crate::step::{ActionView, Next, NextView, StepView, Task, TaskView};
use crate::worker::{Event, EventView, SessionView, TurnView};
use vstd::prelude::*;
use vstd::utf8::{decode_utf8, valid_utf8};

verus! {

/// Actions that are left are performed one after the other, whatever came of the one
/// before, unless that failed. What follows them does not change.
pub proof fn law_actions_left<T>(session: SessionView<T>, level: LevelFilter, event: EventView<T>)
    requires
        session.step.actions.len() > 0,
        !(event is Interrupted),
        !(event is Failed),
    ensures
        session.accepts(event),
        performs_all(
            session.advance(level, event),
            session,
            session.step.actions,
            session.step.next,
        ),
{
}

/// When a request has been dealt with, the next one is read. When it ends the
/// connection, that is what happens.
pub proof fn law_no_actions_left<T>(
    session: SessionView<T>,
    level: LevelFilter,
    event: EventView<T>,
    result: Result<(), Error<T>>,
)
    requires
        session.step.actions.len() == 0,
        session.step.next == NextView::<T>::Return(result),
        !(event is Interrupted),
        !(event is Failed),
    ensures
        session.accepts(event),
        match result {
            Ok(_) => performs_all(
                session.advance(level, event),
                session,
                seq![ActionView::ReadRequest],
                Next::Resume(TaskView::Serving),
            ),
            Err(error) => session.advance(level, event) == TurnView::<T>::Return(Err(error)),
        },
{
}

/// The number that the host sends is the number of the device from then on, and the
/// host is greeted with an `e`.
pub proof fn law_number_is_read<T>(session: SessionView<T>, level: LevelFilter, number: u8)
    requires
        waits(session, TaskView::Greeting),
    ensures
        performs_all(
            session.advance(level, EventView::Destination(number)),
            SessionView { destination: number, ..session },
            seq![ActionView::Greet("e"@)],
            Next::Return(Ok(())),
        ),
{
}

/// The log of this device goes to the host as it is, before the buffer is given up.
pub proof fn law_log_is_acquired<T>(
    session: SessionView<T>,
    level: LevelFilter,
    empty: bool,
    content: Seq<char>,
)
    requires
        waits(session, TaskView::LocalGetLog),
    ensures
        performs_all(
            session.advance(level, EventView::Log { empty, content }),
            session,
            seq![ActionView::Send(Reply::LogContent(content)), ActionView::ReleaseLog],
            Next::Return(Ok(())),
        ),
{
}

/// In a round of the endless transmission of the log of this device the log goes to the
/// host as it is, if there is any, and the buffer is emptied only after that. At the
/// limit of a trace the host acknowledges it in between.
pub proof fn law_pulled_log_is_acquired<T>(
    session: SessionView<T>,
    limit: LevelFilter,
    level: LevelFilter,
    empty: bool,
    content: Seq<char>,
)
    requires
        waits(session, TaskView::LocalPullLog(limit)),
    ensures
        performs_all(
            session.advance(level, EventView::Log { empty, content }),
            session,
            if empty {
                seq![ActionView::ReleaseLog]
            } else if limit == LevelFilter::Trace {
                seq![
                    ActionView::SendString(content),
                    ActionView::Flush,
                    ActionView::ClearLog,
                    ActionView::ReleaseLog,
                ]
            } else {
                seq![
                    ActionView::SendString(content),
                    ActionView::ClearLog,
                    ActionView::ReleaseLog,
                ]
            },
            Next::Resume(TaskView::LocalPullAgain),
        ),
{
}

/// After each round the buffer is asked for again, under the limit at that moment.
pub proof fn law_log_is_pulled_again<T>(
    session: SessionView<T>,
    level: LevelFilter,
    event: EventView<T>,
)
    requires
        waits(session, TaskView::LocalPullAgain),
        !(event is Interrupted),
        !(event is Failed),
    ensures
        performs_all(
            session.advance(level, event),
            session,
            seq![ActionView::AcquireLog],
            Next::Resume(TaskView::LocalPullLog(level)),
        ),
{
}

/// A value that was found goes to the host as it is. That none was found is an error.
pub proof fn law_value_is_looked_up<T>(
    session: SessionView<T>,
    level: LevelFilter,
    value: Result<Seq<u8>, ()>,
)
    requires
        waits(session, TaskView::LocalConfigRead),
    ensures
        performs_all(
            session.advance(level, EventView::Config(value)),
            session,
            match value {
                Ok(bytes) => seq![ActionView::Send(Reply::ConfigData(bytes))],
                Err(_) => seq![ActionView::Send(Reply::Error)],
            },
            Next::Return(Ok(())),
        ),
{
}

/// The host is told whether the configuration was changed. Only if it was, and the
/// change is one for which the idle kernel is restarted, a restart comes before that,
/// and not while another is outstanding.
pub proof fn law_configuration_is_changed<T>(
    session: SessionView<T>,
    level: LevelFilter,
    restart: bool,
    result: Result<(), ()>,
)
    requires
        waits(session, TaskView::LocalConfigChange { restart }),
    ensures
        performs_all(
            session.advance(level, EventView::ConfigChange(result)),
            session,
            match result {
                Err(_) => seq![ActionView::Send(Reply::Error)],
                Ok(_) => if restart {
                    seq![
                        ActionView::AwaitIdle,
                        ActionView::RestartIdle,
                        ActionView::Send(Reply::Success),
                    ]
                } else {
                    seq![ActionView::Send(Reply::Success)]
                },
            },
            Next::Return(Ok(())),
        ),
{
}

/// The bytes are those of the payload, up to the length that the packet gives.
pub open spec fn is_front_of(bytes: Seq<u8>, payload: Seq<u8>, length: u16) -> bool {
    &&& bytes.len() == length
    &&& length <= payload.len()
    &&& forall|i: int| 0 <= i < length ==> #[trigger] bytes[i] == payload[i]
}

/// The bytes that a packet says count are put behind the text so far, as text. After the
/// last piece the text goes to the host, after any other the device is asked for more,
/// and told to keep its log. Bytes that are no text end the connection without a word.
pub proof fn law_piece_of_log<T>(
    session: SessionView<T>,
    link: Link,
    buffer: Seq<char>,
    level: LevelFilter,
    last: bool,
    length: u16,
    data: Seq<u8>,
    bytes: Seq<u8>,
)
    requires
        waits(session, TaskView::RemoteGetLog { link, buffer }),
        is_front_of(bytes, data, length),
    ensures
        ({
            let packet = PacketView::CoreMgmtGetLogReply { last, length, data };
            let turn = session.advance(level, EventView::Answer(Ok(packet)));
            if !valid_utf8(bytes) {
                turn == TurnView::<T>::Return(Err(Error::DrtioError))
            } else if last {
                performs_all(
                    turn,
                    session,
                    seq![ActionView::Send(Reply::LogContent(buffer + decode_utf8(bytes)))],
                    Next::Return(Ok(())),
                )
            } else {
                performs_all(
                    turn,
                    session,
                    seq![
                        ActionView::Transact {
                            linkno: link.linkno,
                            packet: Packet::CoreMgmtGetLogRequest {
                                destination: link.destination,
                                clear: false,
                            },
                        },
                    ],
                    Next::Resume(
                        TaskView::RemoteGetLog { link, buffer: buffer + decode_utf8(bytes) },
                    ),
                )
            }
        }),
{
    assert(data.subrange(0, length as int) =~= bytes);
}

/// In the endless transmission of the log of a device the bytes that a packet says count
/// go to the host, whatever they are and whether or not they are the last, and the
/// device is asked for more and told to empty its log.
pub proof fn law_piece_of_pulled_log<T>(
    session: SessionView<T>,
    link: Link,
    level: LevelFilter,
    last: bool,
    length: u16,
    data: Seq<u8>,
    bytes: Seq<u8>,
)
    requires
        waits(session, TaskView::RemotePullLog { link }),
        is_front_of(bytes, data, length),
    ensures
        performs_all(
            session.advance(
                level,
                EventView::Answer(Ok(PacketView::CoreMgmtGetLogReply { last, length, data })),
            ),
            session,
            seq![
                ActionView::SendBytes(bytes),
                ActionView::Transact {
                    linkno: link.linkno,
                    packet: Packet::CoreMgmtGetLogRequest {
                        destination: link.destination,
                        clear: true,
                    },
                },
            ],
            Next::Resume(TaskView::RemotePullLog { link }),
        ),
{
    assert(data.subrange(0, length as int) =~= bytes);
}

/// The bytes that a packet says count are put behind those so far, whatever they are:
/// none is left out, added or changed. After the last piece all of them go to the host,
/// after any other the device is told to go on.
pub proof fn law_piece_of_value<T>(
    session: SessionView<T>,
    link: Link,
    value: Seq<u8>,
    level: LevelFilter,
    length: u16,
    last: bool,
    payload: Seq<u8>,
    bytes: Seq<u8>,
)
    requires
        waits(session, TaskView::RemoteConfigRead { link, value }),
        length <= payload.len(),
        bytes.len() == value.len() + length,
        forall|i: int| 0 <= i < value.len() ==> #[trigger] bytes[i] == value[i],
        forall|i: int| 0 <= i < length ==> bytes[value.len() + i] == #[trigger] payload[i],
    ensures
        ({
            let packet = PacketView::CoreMgmtConfigReadReply { length, last, value: payload };
            let turn = session.advance(level, EventView::Answer(Ok(packet)));
            if last {
                performs_all(
                    turn,
                    session,
                    seq![ActionView::Send(Reply::ConfigData(bytes))],
                    Next::Return(Ok(())),
                )
            } else {
                performs_all(
                    turn,
                    session,
                    seq![
                        ActionView::Transact {
                            linkno: link.linkno,
                            packet: Packet::CoreMgmtConfigReadContinue {
                                destination: link.destination,
                            },
                        },
                    ],
                    Next::Resume(TaskView::RemoteConfigRead { link, value: bytes }),
                )
            }
        }),
{
    assert(value + payload.subrange(0, length as int) =~= bytes);
}

/// A confirmation of the device is passed on to the host: a reboot is imminent, anything
/// else has been done. The host is told nothing of a printout.
pub proof fn law_confirmation<T>(session: SessionView<T>, level: LevelFilter)
    ensures
        ({
            let turn = session.advance(level, EventView::Answer(Ok(Packet::CoreMgmtAck)));
            let done = NextView::<T>::Return(Ok(()));
            &&& waits(session, TaskView::RemoteAck) ==> performs_all(
                turn,
                session,
                seq![ActionView::Send(Reply::Success)],
                done,
            )
            &&& waits(session, TaskView::RemoteReboot) ==> performs_all(
                turn,
                session,
                seq![ActionView::Send(Reply::RebootImminent)],
                done,
            )
            &&& waits(session, TaskView::RemoteDebugAllocator) ==> performs_all(
                turn,
                session,
                seq![ActionView::ReadRequest],
                Next::Resume(TaskView::Serving),
            )
        }),
{
}

/// The packet is what the task waits for.
pub open spec fn is_expected(task: TaskView, packet: PacketView) -> bool {
    match task {
        Task::RemoteGetLog { .. } => packet is CoreMgmtGetLogReply,
        Task::RemotePullLog { .. } => packet is CoreMgmtGetLogReply,
        Task::RemoteConfigRead { .. } => packet is CoreMgmtConfigReadReply,
        Task::RemoteAck => packet is CoreMgmtAck,
        Task::RemoteReboot => packet is CoreMgmtAck,
        Task::RemoteDebugAllocator => packet is CoreMgmtAck,
        _ => false,
    }
}

/// Where no answer is to be had, or another than is waited for, the host is told of an
/// error, but for the endless transmission of a log and for a printout. The connection
/// ends either way.
pub proof fn law_no_answer<T>(
    session: SessionView<T>,
    task: TaskView,
    level: LevelFilter,
    answer: Result<PacketView, DrtioError>,
)
    requires
        waits(session, task),
        answer matches Ok(packet) ==> !is_expected(task, packet),
    ensures
        ({
            let turn = session.advance(level, EventView::Answer(answer));
            match task {
                Task::RemoteGetLog { .. }
                | Task::RemoteConfigRead { .. }
                | Task::RemoteAck
                | Task::RemoteReboot => performs_all(
                    turn,
                    session,
                    seq![ActionView::Send(Reply::Error)],
                    Next::Return(Err(Error::DrtioError)),
                ),
                Task::RemotePullLog { .. } | Task::RemoteDebugAllocator => turn == TurnView::<
                    T,
                >::Return(Err(Error::DrtioError)),
                _ => true,
            }
        }),
{
}

/// The host is told whether a key and its value reached the device. If they did not, the
/// connection ends after that.
pub proof fn law_transfer<T>(
    session: SessionView<T>,
    level: LevelFilter,
    result: Result<(), DrtioError>,
)
    requires
        waits(session, TaskView::RemoteConfigWrite),
    ensures
        ({
            let turn = session.advance(level, EventView::Transfer(result));
            match result {
                Ok(_) => performs_all(
                    turn,
                    session,
                    seq![ActionView::Send(Reply::Success)],
                    Next::Return(Ok(())),
                ),
                Err(_) => performs_all(
                    turn,
                    session,
                    seq![ActionView::Send(Reply::Error)],
                    Next::Return(Err(Error::DrtioError)),
                ),
            }
        }),
{
}

/// Which packet each task waits for.
pub proof fn law_expected_packets(task: TaskView, packet: PacketView)
    ensures
        task.expects(packet) == is_expected(task, packet),
{
}

/// Which events can come of an action. Any action may fail, and where more actions are
/// left, or the request has been dealt with, what came of this one does not matter.
/// Otherwise it has to be what the task waits for. A request needs a way to the device,
/// and a key that fits a packet where it is put in one. A piece has to lie within its
/// payload.
pub proof fn law_events_that_can_come<T>(session: SessionView<T>, event: EventView<T>)
    ensures
        session.accepts(event) == (event is Interrupted || event is Failed
            || session.step.actions.len() > 0 || match session.step.next {
            Next::Return(_) => true,
            Next::Resume(task) => match (task, event) {
                (Task::Greeting, Event::Destination(_)) => true,
                (Task::Serving, Event::Request(request)) => is_about_this_device(session) || (
                exists|link: Link| #[trigger]
                    is_about(session, link) && key_fits(request, session.capacity)),
                (Task::LocalGetLog, Event::Log { .. }) => true,
                (Task::LocalPullLog(_), Event::Log { .. }) => true,
                (Task::LocalPullAgain, _) => true,
                (Task::LocalConfigRead, Event::Config(_)) => true,
                (Task::LocalConfigChange { .. }, Event::ConfigChange(_)) => true,
                (Task::RemoteGetLog { .. }, Event::Answer(answer)) => match answer {
                    Ok(Packet::CoreMgmtGetLogReply { length, data, .. }) => length <= data.len(),
                    _ => true,
                },
                (Task::RemotePullLog { .. }, Event::Answer(answer)) => match answer {
                    Ok(Packet::CoreMgmtGetLogReply { length, data, .. }) => length <= data.len(),
                    _ => true,
                },
                (Task::RemoteConfigRead { .. }, Event::Answer(answer)) => match answer {
                    Ok(Packet::CoreMgmtConfigReadReply { length, value, .. }) => length
                        <= value.len(),
                    _ => true,
                },
                (Task::RemoteConfigWrite, Event::Transfer(_)) => true,
                (Task::RemoteAck, Event::Answer(_)) => true,
                (Task::RemoteReboot, Event::Answer(_)) => true,
                (Task::RemoteDebugAllocator, Event::Answer(_)) => true,
                _ => false,
            },
        }),
{
    if let Some(table) = session.table {
        if session.destination < table.len() && table[session.destination as int].len() > 0
            && table[session.destination as int][0] > 0 {
            let link = Link {
                linkno: (table[session.destination as int][0] - 1) as u8,
                destination: session.destination,
            };
            assert(is_about(session, link));
        }
    }
}

/// The limit of what is logged is read exactly where the log of this device is about to
/// be asked for as part of an endless transmission: at its beginning and after each
/// round.
pub proof fn law_where_limit_is_read<T>(session: SessionView<T>, event: EventView<T>)
    requires
        session.accepts(event),
    ensures
        session.reads_limit(event) == (!(event is Interrupted) && !(event is Failed) && (waits(
            session,
            TaskView::LocalPullAgain,
        ) || waits(session, TaskView::Serving) && is_about_this_device(session) && event
            == EventView::<T>::Request(Request::PullLog))),
{
    law_events_that_can_come(session, event);
}

/// Of a connection that has ended, its error is reported, unless the host hung up.
pub proof fn law_reports<T>(outcome: Result<(), Error<T>>)
    ensures
        outcome is Ok ==> reported(outcome) is None,
        outcome == Err::<(), Error<T>>(Error::Io(IoError::UnexpectedEnd)) ==> reported(
            outcome,
        ) is None,
        outcome matches Err(error) ==> error != Error::<T>::Io(IoError::UnexpectedEnd)
            ==> reported(outcome) == Some(error),
{
}

/// A connection goes on after an outcome as the handler that waits for it says.
pub proof fn law_outcomes_have_their_handlers<T>(
    session: SessionView<T>,
    task: TaskView,
    level: LevelFilter,
    event: EventView<T>,
    step: StepView<T>,
)
    requires
        waits(session, task),
        match (task, event) {
            (Task::LocalGetLog, Event::Log { content, .. }) => {
                step == local_coremgmt::get_log_acquired::<T>(content)
            },
            (Task::LocalPullLog(limit), Event::Log { empty, content }) => {
                step == local_coremgmt::pull_log_acquired::<T>(limit, empty, content)
            },
            (Task::LocalConfigRead, Event::Config(value)) => {
                step == local_coremgmt::config_read_answered::<T>(value)
            },
            (Task::LocalConfigChange { restart }, Event::ConfigChange(result)) => {
                step == local_coremgmt::config_changed::<T>(restart, result)
            },
            (Task::RemoteGetLog { link, buffer }, Event::Answer(answer)) => {
                step == remote_coremgmt::get_log_answered::<T>(link, buffer, answer)
            },
            (Task::RemotePullLog { link }, Event::Answer(answer)) => {
                step == remote_coremgmt::pull_log_answered::<T>(link, answer)
            },
            (Task::RemoteConfigRead { link, value }, Event::Answer(answer)) => {
                step == remote_coremgmt::config_read_answered::<T>(link, value, answer)
            },
            (Task::RemoteConfigWrite, Event::Transfer(result)) => {
                step == remote_coremgmt::config_write_transferred::<T>(result)
            },
            (Task::RemoteAck, Event::Answer(answer)) => {
                step == remote_coremgmt::confirmed::<T>(answer, Reply::Success)
            },
            (Task::RemoteReboot, Event::Answer(answer)) => {
                step == remote_coremgmt::confirmed::<T>(answer, Reply::RebootImminent)
            },
            (Task::RemoteDebugAllocator, Event::Answer(answer)) => {
                step == remote_coremgmt::debug_allocator_answered::<T>(answer)
            },
            _ => false,
        },
    ensures
        session.advance(level, event) == (SessionView { step, ..session }).go_on(),
{
}

} // verus!
