//! What the contracts say of a value: all that it holds, and nothing else.
use crate::drtio::{Packet, PacketView, RoutingTable};
use crate::level::{latest, LevelFilter, LimitUse};
use crate::local_coremgmt::value_view;
use crate::proto::{
    DrtioError, Error, IoError, Reply, ReplyView, Request, RequestView, SchedError,
};
use crate::remote_coremgmt::answer_view;
use crate::step::{
    message_view, Action, ActionView, Field, FieldView, Next, NextView, Step, Task, TaskView,
};
use crate::worker::{Event, EventView, Turn, TurnView};
use vstd::prelude::*;
use vstd::std_specs::convert::FromSpec;

verus! {

/// A request is known by its kind, its level, the text of its key and the bytes of its
/// value.
pub proof fn law_view_of_request(request: Request)
    ensures
        match request {
            Request::GetLog => request@ == RequestView::GetLog,
            Request::ClearLog => request@ == RequestView::ClearLog,
            Request::PullLog => request@ == RequestView::PullLog,
            Request::SetLogFilter(level) => request@ == RequestView::SetLogFilter(level),
            Request::SetUartLogFilter(level) => request@ == RequestView::SetUartLogFilter(level),
            Request::ConfigRead { key } => request@ == (RequestView::ConfigRead { key: key@ }),
            Request::ConfigWrite { key, value } => request@ == (RequestView::ConfigWrite {
                key: key@,
                value: value@,
            }),
            Request::ConfigRemove { key } => request@ == (RequestView::ConfigRemove { key: key@ }),
            Request::ConfigErase => request@ == RequestView::ConfigErase,
            Request::Reboot => request@ == RequestView::Reboot,
            Request::DebugAllocator => request@ == RequestView::DebugAllocator,
        },
{
}

/// A reply is known by its kind and the text or the bytes that it holds.
pub proof fn law_view_of_reply(reply: Reply)
    ensures
        match reply {
            Reply::Success => reply@ == ReplyView::Success,
            Reply::Error => reply@ == ReplyView::Error,
            Reply::RebootImminent => reply@ == ReplyView::RebootImminent,
            Reply::LogContent(content) => reply@ == ReplyView::LogContent(content@),
            Reply::ConfigData(value) => reply@ == ReplyView::ConfigData(value@),
        },
{
}

/// A packet is known by its kind, the numbers and flags in it and the bytes of its
/// payload.
pub proof fn law_view_of_packet(packet: Packet)
    ensures
        match packet {
            Packet::CoreMgmtGetLogRequest { destination, clear } => packet@ == (
            PacketView::CoreMgmtGetLogRequest { destination, clear }),
            Packet::CoreMgmtClearLogRequest { destination } => packet@ == (
            PacketView::CoreMgmtClearLogRequest { destination }),
            Packet::CoreMgmtSetLogLevelRequest { destination, log_level } => packet@ == (
            PacketView::CoreMgmtSetLogLevelRequest { destination, log_level }),
            Packet::CoreMgmtSetUartLogLevelRequest { destination, log_level } => packet@ == (
            PacketView::CoreMgmtSetUartLogLevelRequest { destination, log_level }),
            Packet::CoreMgmtConfigReadRequest { destination, length, key } => packet@ == (
            PacketView::CoreMgmtConfigReadRequest { destination, length, key: key@ }),
            Packet::CoreMgmtConfigReadContinue { destination } => packet@ == (
            PacketView::CoreMgmtConfigReadContinue { destination }),
            Packet::CoreMgmtConfigWriteRequest { destination, length, last, data } => packet@ == (
            PacketView::CoreMgmtConfigWriteRequest { destination, length, last, data: data@ }),
            Packet::CoreMgmtConfigRemoveRequest { destination, length, key } => packet@ == (
            PacketView::CoreMgmtConfigRemoveRequest { destination, length, key: key@ }),
            Packet::CoreMgmtConfigEraseRequest { destination } => packet@ == (
            PacketView::CoreMgmtConfigEraseRequest { destination }),
            Packet::CoreMgmtRebootRequest { destination } => packet@ == (
            PacketView::CoreMgmtRebootRequest { destination }),
            Packet::CoreMgmtAllocatorDebugRequest { destination } => packet@ == (
            PacketView::CoreMgmtAllocatorDebugRequest { destination }),
            Packet::CoreMgmtGetLogReply { last, length, data } => packet@ == (
            PacketView::CoreMgmtGetLogReply { last, length, data: data@ }),
            Packet::CoreMgmtConfigReadReply { length, last, value } => packet@ == (
            PacketView::CoreMgmtConfigReadReply { length, last, value: value@ }),
            Packet::CoreMgmtAck => packet@ == PacketView::CoreMgmtAck,
            Packet::Other => packet@ == PacketView::Other,
        },
{
}

/// A piece lies within its payload exactly if the payload has as many bytes as the
/// packet says count.
pub proof fn law_bounds_of_pieces(packet: PacketView)
    ensures
        packet.log_in_bounds() == match packet {
            Packet::CoreMgmtGetLogReply { length, data, .. } => length <= data.len(),
            _ => true,
        },
        packet.value_in_bounds() == match packet {
            Packet::CoreMgmtConfigReadReply { length, value, .. } => length <= value.len(),
            _ => true,
        },
{
}

/// A routing table is known by the hops to each destination.
pub proof fn law_view_of_routing_table(table: RoutingTable)
    ensures
        table@.len() == table.0@.len(),
        forall|i: int| 0 <= i < table.0@.len() ==> #[trigger] table@[i] == table.0@[i]@,
{
}

/// A field is known by its text or its bytes, and a message by its fields in order.
pub proof fn law_view_of_message(message: Vec<Field>)
    ensures
        message_view(message).len() == message@.len(),
        forall|i: int|
            0 <= i < message@.len() ==> match message@[i] {
                Field::Text(text) => #[trigger] message_view(message)[i] == FieldView::Text(text@),
                Field::Bytes(bytes) => message_view(message)[i] == FieldView::Bytes(bytes@),
            },
{
}

/// An action is known by its kind and all that it is performed with.
pub proof fn law_view_of_action(action: Action)
    ensures
        match action {
            Action::ReadMagic => action@ == ActionView::ReadMagic,
            Action::ReadDestination => action@ == ActionView::ReadDestination,
            Action::Greet(text) => action@ == ActionView::Greet(text@),
            Action::ReadRequest => action@ == ActionView::ReadRequest,
            Action::Send(reply) => action@ == ActionView::Send(reply@),
            Action::SendString(text) => action@ == ActionView::SendString(text@),
            Action::SendBytes(bytes) => action@ == ActionView::SendBytes(bytes@),
            Action::Flush => action@ == ActionView::Flush,
            Action::Close => action@ == ActionView::Close,
            Action::AcquireLog => action@ == ActionView::AcquireLog,
            Action::ClearLog => action@ == ActionView::ClearLog,
            Action::ReleaseLog => action@ == ActionView::ReleaseLog,
            Action::SetLogLevel(level) => action@ == ActionView::SetLogLevel(level),
            Action::SetUartLogLevel(level) => action@ == ActionView::SetUartLogLevel(level),
            Action::ReadConfig(key) => action@ == ActionView::ReadConfig(key@),
            Action::WriteConfig { key, value } => action@ == (ActionView::WriteConfig {
                key: key@,
                value: value@,
            }),
            Action::RemoveConfig(key) => action@ == ActionView::RemoveConfig(key@),
            Action::EraseConfig => action@ == ActionView::EraseConfig,
            Action::AwaitIdle => action@ == ActionView::AwaitIdle,
            Action::RestartIdle => action@ == ActionView::RestartIdle,
            Action::PrintAllocator => action@ == ActionView::PrintAllocator,
            Action::Reload => action@ == ActionView::Reload,
            Action::Transact { linkno, packet } => action@ == (ActionView::Transact {
                linkno,
                packet: packet@,
            }),
            Action::Transfer { link, message } => action@ == (ActionView::Transfer {
                link,
                message: message_view(message),
            }),
        },
{
}

/// A task is known by its kind and what it keeps for its outcome.
pub proof fn law_view_of_task(task: Task)
    ensures
        match task {
            Task::Greeting => task@ == TaskView::Greeting,
            Task::Serving => task@ == TaskView::Serving,
            Task::LocalGetLog => task@ == TaskView::LocalGetLog,
            Task::LocalPullLog(level) => task@ == TaskView::LocalPullLog(level),
            Task::LocalPullAgain => task@ == TaskView::LocalPullAgain,
            Task::LocalConfigRead => task@ == TaskView::LocalConfigRead,
            Task::LocalConfigChange { restart } => task@ == (TaskView::LocalConfigChange {
                restart,
            }),
            Task::RemoteGetLog { link, buffer } => task@ == (TaskView::RemoteGetLog {
                link,
                buffer: buffer@,
            }),
            Task::RemotePullLog { link } => task@ == (TaskView::RemotePullLog { link }),
            Task::RemoteConfigRead { link, value } => task@ == (TaskView::RemoteConfigRead {
                link,
                value: value@,
            }),
            Task::RemoteConfigWrite => task@ == TaskView::RemoteConfigWrite,
            Task::RemoteAck => task@ == TaskView::RemoteAck,
            Task::RemoteReboot => task@ == TaskView::RemoteReboot,
            Task::RemoteDebugAllocator => task@ == TaskView::RemoteDebugAllocator,
        },
{
}

/// A step is known by its actions in order and by what follows them.
pub proof fn law_view_of_step<T>(step: Step<T>)
    ensures
        step@.actions.len() == step.actions@.len(),
        forall|i: int|
            0 <= i < step.actions@.len() ==> #[trigger] step@.actions[i] == step.actions@[i]@,
        match step.next {
            Next::Resume(task) => step@.next == NextView::<T>::Resume(task@),
            Next::Return(result) => step@.next == NextView::<T>::Return(result),
        },
{
}

/// An event is known by its kind and all that came with it.
pub proof fn law_view_of_event<T>(event: Event<T>)
    ensures
        match event {
            Event::Done => event@ == EventView::<T>::Done,
            Event::Destination(number) => event@ == EventView::<T>::Destination(number),
            Event::Request(request) => event@ == EventView::<T>::Request(request@),
            Event::Log { empty, content } => event@ == (EventView::<T>::Log {
                empty,
                content: content@,
            }),
            Event::Config(Ok(value)) => event@ == EventView::<T>::Config(Ok(value@)),
            Event::Config(Err(_)) => event@ == EventView::<T>::Config(Err(())),
            Event::ConfigChange(result) => event@ == EventView::<T>::ConfigChange(result),
            Event::Answer(Ok(packet)) => event@ == EventView::<T>::Answer(Ok(packet@)),
            Event::Answer(Err(error)) => event@ == EventView::<T>::Answer(Err(error)),
            Event::Transfer(result) => event@ == EventView::<T>::Transfer(result),
            Event::Interrupted(error) => event@ == EventView::<T>::Interrupted(error),
            Event::Failed(error) => event@ == EventView::<T>::Failed(error),
        },
{
}

/// A value that was looked up is known by its bytes, and the answer of a device by its
/// packet. A failure stays what it is.
pub proof fn law_view_of_results(
    value: Result<Vec<u8>, ()>,
    answer: Result<Packet, DrtioError>,
)
    ensures
        match value {
            Ok(bytes) => value_view(value) == Ok::<Seq<u8>, ()>(bytes@),
            Err(error) => value_view(value) == Err::<Seq<u8>, ()>(error),
        },
        match answer {
            Ok(packet) => answer_view(answer) == Ok::<PacketView, DrtioError>(packet@),
            Err(error) => answer_view(answer) == Err::<PacketView, DrtioError>(error),
        },
{
}

/// A turn is known by its action and the connection after it, or by the outcome of the
/// connection.
pub proof fn law_view_of_turn<T>(turn: Turn<T>)
    ensures
        match turn {
            Turn::Perform { action, session } => turn@ == (TurnView::<T>::Perform {
                action: action@,
                session: session@,
            }),
            Turn::Return(result) => turn@ == TurnView::<T>::Return(result),
        },
{
}

/// The level of the last use of the limit is the one that was read or set by it,
/// whatever was before.
pub proof fn law_latest_use(uses: Seq<LimitUse>, level: LevelFilter)
    ensures
        latest(uses.push(LimitUse::Read(level))) == level,
        latest(uses.push(LimitUse::Write(level))) == level,
{
}

/// An interruption by the scheduler is a failure of input or output, with the same
/// cause. Any failure of an exchange with a device is one and the same error.
pub proof fn law_errors<T>(cause: T, failure: DrtioError)
    ensures
        <Error<T> as FromSpec<SchedError<T>>>::obeys_from_spec(),
        <Error<T> as FromSpec<SchedError<T>>>::from_spec(SchedError(cause)) == Error::Io(
            IoError::Other(cause),
        ),
        <Error<T> as FromSpec<DrtioError>>::obeys_from_spec(),
        <Error<T> as FromSpec<DrtioError>>::from_spec(failure) == Error::<T>::DrtioError,
{
}

} // verus!
