//! What a host asks, what it is answered, and how a connection fails.
use crate::level::LevelFilter;
use vstd::prelude::*;
use vstd::std_specs::convert::FromSpecImpl;

verus! {

/// A request of the host. The parameters are how text and bytes are held: as a
/// `String` and a `Vec<u8>` by the program, as sequences in contracts.
#[derive(Debug, PartialEq, Eq)]
pub enum Request<S = String, B = Vec<u8>> {
    GetLog,
    ClearLog,
    PullLog,
    SetLogFilter(LevelFilter),
    SetUartLogFilter(LevelFilter),
    ConfigRead { key: S },
    ConfigWrite { key: S, value: B },
    ConfigRemove { key: S },
    ConfigErase,
    Reboot,
    DebugAllocator,
}

/// A reply to the host.
#[derive(Debug, PartialEq, Eq)]
pub enum Reply<S = String, B = Vec<u8>> {
    Success,
    Error,
    RebootImminent,
    LogContent(S),
    ConfigData(B),
}

pub type RequestView = Request<Seq<char>, Seq<u8>>;

pub type ReplyView = Reply<Seq<char>, Seq<u8>>;

impl View for Request {
    type V = RequestView;

    open spec fn view(&self) -> RequestView {
        match *self {
            Request::GetLog => Request::GetLog,
            Request::ClearLog => Request::ClearLog,
            Request::PullLog => Request::PullLog,
            Request::SetLogFilter(level) => Request::SetLogFilter(level),
            Request::SetUartLogFilter(level) => Request::SetUartLogFilter(level),
            Request::ConfigRead { key } => Request::ConfigRead { key: key@ },
            Request::ConfigWrite { key, value } => Request::ConfigWrite { key: key@, value: value@ },
            Request::ConfigRemove { key } => Request::ConfigRemove { key: key@ },
            Request::ConfigErase => Request::ConfigErase,
            Request::Reboot => Request::Reboot,
            Request::DebugAllocator => Request::DebugAllocator,
        }
    }
}

impl View for Reply {
    type V = ReplyView;

    open spec fn view(&self) -> ReplyView {
        match *self {
            Reply::Success => Reply::Success,
            Reply::Error => Reply::Error,
            Reply::RebootImminent => Reply::RebootImminent,
            Reply::LogContent(content) => Reply::LogContent(content@),
            Reply::ConfigData(value) => Reply::ConfigData(value@),
        }
    }
}

/// A failure to read from the host or to write to it. `T` is what the surroundings
/// report.
#[derive(Debug, PartialEq, Eq)]
pub enum IoError<T> {
    /// The host closed the connection.
    UnexpectedEnd,
    Other(T),
}

/// Why a connection ended.
#[derive(Debug, PartialEq, Eq)]
pub enum Error<T> {
    Io(IoError<T>),
    /// What the host sent was not understood.
    Protocol(T),
    /// A remote device did not do what it was asked.
    DrtioError,
}

/// An interruption of a task that waits for the scheduler.
#[derive(Debug, PartialEq, Eq)]
pub struct SchedError<T>(pub T);

/// The failure of an exchange with a remote device.
#[derive(Clone, Copy, Debug, PartialEq, Eq, Structural)]
pub enum DrtioError {
    /// The device answered with a packet that does not answer the request.
    UnexpectedReply,
    /// There was no answer to be had.
    Transaction,
}

impl<T> From<SchedError<T>> for Error<T> {
    fn from(value: SchedError<T>) -> (error: Error<T>) {
        Error::Io(IoError::Other(value.0))
    }
}

impl<T> FromSpecImpl<SchedError<T>> for Error<T> {
    open spec fn obeys_from_spec() -> bool {
        true
    }

    open spec fn from_spec(value: SchedError<T>) -> Error<T> {
        Error::Io(IoError::Other(value.0))
    }
}

impl<T> From<DrtioError> for Error<T> {
    fn from(_value: DrtioError) -> (error: Error<T>) {
        Error::DrtioError
    }
}

impl<T> FromSpecImpl<DrtioError> for Error<T> {
    open spec fn obeys_from_spec() -> bool {
        true
    }

    open spec fn from_spec(_value: DrtioError) -> Error<T> {
        Error::DrtioError
    }
}

} // verus!
