//! What a handler has the driver do, and what becomes of it.
use crate::drtio::{Link, Packet};
use crate::level::LevelFilter;
use crate::proto::{Error, Reply};
use vstd::prelude::*;

verus! {

/// A part of a message. Its length goes in front of it.
#[derive(Debug, PartialEq, Eq)]
pub enum Field<S = String, B = Vec<u8>> {
    Text(S),
    Bytes(B),
}

pub type FieldView = Field<Seq<char>, Seq<u8>>;

impl View for Field {
    type V = FieldView;

    open spec fn view(&self) -> FieldView {
        match *self {
            Field::Text(text) => Field::Text(text@),
            Field::Bytes(bytes) => Field::Bytes(bytes@),
        }
    }
}

/// The fields of a message, from the first to the last.
pub open spec fn message_view(message: Vec<Field>) -> Seq<FieldView> {
    message@.map_values(|field: Field| field@)
}

/// One thing for the driver to do.
#[derive(Debug, PartialEq, Eq)]
pub enum Action<S = String, B = Vec<u8>, M = Vec<Field>> {
    /// Read the magic string with which a host opens a connection.
    ReadMagic,
    /// Read the number of the device that the connection is about.
    ReadDestination,
    /// Write this text to the host, as it is.
    Greet(S),
    /// Read a request.
    ReadRequest,
    /// Write a reply.
    Send(Reply<S, B>),
    /// Write text, with its length in front.
    SendString(S),
    /// Write bytes, with their length in front.
    SendBytes(B),
    /// Wait until what was written has been acknowledged.
    Flush,
    /// Close the connection.
    Close,
    /// Wait for exclusive access to the log buffer, which suspends logging, and take it.
    AcquireLog,
    /// Empty the log buffer.
    ClearLog,
    /// Give up the log buffer.
    ReleaseLog,
    /// Limit what is logged, with [`crate::local_coremgmt::limit_log`].
    SetLogLevel(LevelFilter),
    /// Limit what is logged to the serial port.
    SetUartLogLevel(LevelFilter),
    /// Look up a key of the configuration.
    ReadConfig(S),
    /// Set a key of the configuration.
    WriteConfig { key: S, value: B },
    /// Remove a key from the configuration.
    RemoveConfig(S),
    /// Remove all keys from the configuration.
    EraseConfig,
    /// Wait until no restart of the idle kernel is outstanding.
    AwaitIdle,
    /// Ask for a restart of the idle kernel.
    RestartIdle,
    /// Print the state of the allocator.
    PrintAllocator,
    /// Start the device anew. There is no way on from there.
    Reload,
    /// Send a packet over a link and receive the answer.
    Transact { linkno: u8, packet: Packet<B> },
    /// Write the fields of a message one after the other, and send what that makes to a
    /// device, piece by piece.
    Transfer { link: Link, message: M },
}

pub type ActionView = Action<Seq<char>, Seq<u8>, Seq<FieldView>>;

impl View for Action {
    type V = ActionView;

    open spec fn view(&self) -> ActionView {
        match *self {
            Action::ReadMagic => Action::ReadMagic,
            Action::ReadDestination => Action::ReadDestination,
            Action::Greet(text) => Action::Greet(text@),
            Action::ReadRequest => Action::ReadRequest,
            Action::Send(reply) => Action::Send(reply@),
            Action::SendString(text) => Action::SendString(text@),
            Action::SendBytes(bytes) => Action::SendBytes(bytes@),
            Action::Flush => Action::Flush,
            Action::Close => Action::Close,
            Action::AcquireLog => Action::AcquireLog,
            Action::ClearLog => Action::ClearLog,
            Action::ReleaseLog => Action::ReleaseLog,
            Action::SetLogLevel(level) => Action::SetLogLevel(level),
            Action::SetUartLogLevel(level) => Action::SetUartLogLevel(level),
            Action::ReadConfig(key) => Action::ReadConfig(key@),
            Action::WriteConfig { key, value } => Action::WriteConfig { key: key@, value: value@ },
            Action::RemoveConfig(key) => Action::RemoveConfig(key@),
            Action::EraseConfig => Action::EraseConfig,
            Action::AwaitIdle => Action::AwaitIdle,
            Action::RestartIdle => Action::RestartIdle,
            Action::PrintAllocator => Action::PrintAllocator,
            Action::Reload => Action::Reload,
            Action::Transact { linkno, packet } => Action::Transact { linkno, packet: packet@ },
            Action::Transfer { link, message } => {
                Action::Transfer { link, message: message_view(message) }
            },
        }
    }
}

/// What is done with the outcome of the last action of a step.
#[derive(Debug, PartialEq, Eq)]
pub enum Task<S = String, B = Vec<u8>> {
    /// The number of the device is to come.
    Greeting,
    /// A request is to come.
    Serving,
    /// The log buffer is to come, for a single reply.
    LocalGetLog,
    /// The log buffer is to come, as a part of an endless transmission. The level is
    /// the limit that was in force before the buffer was asked for.
    LocalPullLog(LevelFilter),
    /// The log buffer has been given up, and is to be asked for again.
    LocalPullAgain,
    /// The value of a key is to come.
    LocalConfigRead,
    /// A change of the configuration is to be confirmed, after which the idle kernel
    /// may have to be restarted.
    LocalConfigChange { restart: bool },
    /// A piece of the log is to come, for a single reply.
    RemoteGetLog { link: Link, buffer: S },
    /// A piece of the log is to come, as a part of an endless transmission.
    RemotePullLog { link: Link },
    /// A piece of the value of a key is to come.
    RemoteConfigRead { link: Link, value: B },
    /// The pieces of a key and its value are to be confirmed.
    RemoteConfigWrite,
    /// A confirmation is to come.
    RemoteAck,
    /// The confirmation of a reboot is to come.
    RemoteReboot,
    /// The confirmation of a printout of the state of the allocator is to come.
    RemoteDebugAllocator,
}

pub type TaskView = Task<Seq<char>, Seq<u8>>;

impl View for Task {
    type V = TaskView;

    open spec fn view(&self) -> TaskView {
        match *self {
            Task::Greeting => Task::Greeting,
            Task::Serving => Task::Serving,
            Task::LocalGetLog => Task::LocalGetLog,
            Task::LocalPullLog(level) => Task::LocalPullLog(level),
            Task::LocalPullAgain => Task::LocalPullAgain,
            Task::LocalConfigRead => Task::LocalConfigRead,
            Task::LocalConfigChange { restart } => Task::LocalConfigChange { restart },
            Task::RemoteGetLog { link, buffer } => Task::RemoteGetLog { link, buffer: buffer@ },
            Task::RemotePullLog { link } => Task::RemotePullLog { link },
            Task::RemoteConfigRead { link, value } => Task::RemoteConfigRead { link, value: value@ },
            Task::RemoteConfigWrite => Task::RemoteConfigWrite,
            Task::RemoteAck => Task::RemoteAck,
            Task::RemoteReboot => Task::RemoteReboot,
            Task::RemoteDebugAllocator => Task::RemoteDebugAllocator,
        }
    }
}

impl<S, B> Task<S, B> {
    /// The packet is of the kind that a remote device is to answer with.
    pub open spec fn expects<C>(self, packet: Packet<C>) -> bool {
        match self {
            Task::RemoteGetLog { .. } => packet is CoreMgmtGetLogReply,
            Task::RemotePullLog { .. } => packet is CoreMgmtGetLogReply,
            Task::RemoteConfigRead { .. } => packet is CoreMgmtConfigReadReply,
            Task::RemoteAck => packet is CoreMgmtAck,
            Task::RemoteReboot => packet is CoreMgmtAck,
            Task::RemoteDebugAllocator => packet is CoreMgmtAck,
            _ => false,
        }
    }
}

/// What follows once all actions of a step have succeeded.
#[derive(Debug, PartialEq, Eq)]
pub enum Next<T, S = String, B = Vec<u8>> {
    /// The outcome of the last action decides.
    Resume(Task<S, B>),
    /// The request has been dealt with.
    Return(Result<(), Error<T>>),
}

pub type NextView<T> = Next<T, Seq<char>, Seq<u8>>;

impl<T> View for Next<T> {
    type V = NextView<T>;

    open spec fn view(&self) -> NextView<T> {
        match *self {
            Next::Resume(task) => Next::Resume(task@),
            Next::Return(result) => Next::Return(result),
        }
    }
}

/// Actions to be performed one after the other until one fails, and what follows.
#[derive(Debug, PartialEq, Eq)]
pub struct Step<T> {
    pub actions: Vec<Action>,
    pub next: Next<T>,
}

#[verifier::ext_equal]
pub struct StepView<T> {
    pub actions: Seq<ActionView>,
    pub next: NextView<T>,
}

impl<T> View for Step<T> {
    type V = StepView<T>;

    open spec fn view(&self) -> StepView<T> {
        StepView {
            actions: self.actions@.map_values(|action: Action| action@),
            next: self.next@,
        }
    }
}

impl<T> StepView<T> {
    /// Perform the actions, and hand the outcome of the last one to the task.
    pub open spec fn resume(actions: Seq<ActionView>, task: TaskView) -> StepView<T> {
        StepView { actions, next: Next::Resume(task) }
    }

    /// Perform the actions, and be done with the request.
    pub open spec fn finish(actions: Seq<ActionView>) -> StepView<T> {
        StepView { actions, next: Next::Return(Ok(())) }
    }

    /// Perform the actions, and end the connection for want of a remote device.
    pub open spec fn abort(actions: Seq<ActionView>) -> StepView<T> {
        StepView { actions, next: Next::Return(Err(Error::DrtioError)) }
    }
}

impl<T> Step<T> {
    /// Perform an action, and hand its outcome to the task.
    pub(crate) fn resume_after(action: Action, task: Task) -> (step: Step<T>)
        ensures
            step@ == StepView::<T>::resume(seq![action@], task@),
    {
        let step = Step { actions: vec![action], next: Next::Resume(task) };
        assert(step@.actions =~= seq![action@]);
        step
    }

    /// Send a reply, and be done with the request.
    pub(crate) fn finish_with(reply: Reply) -> (step: Step<T>)
        ensures
            step@ == StepView::<T>::finish(seq![Action::Send(reply@)]),
    {
        let step = Step { actions: vec![Action::Send(reply)], next: Next::Return(Ok(())) };
        assert(step@.actions =~= seq![Action::Send(reply@)]);
        step
    }
}

} // verus!
