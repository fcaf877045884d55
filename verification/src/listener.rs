//! The port on which hosts connect.
use crate::proto::{Error, IoError};
use vstd::prelude::*;

verus! {

/// The port that is listened on.
pub const PORT: u16 = 1380;

/// The size of the buffer of a connection, in bytes.
pub const BUFFER_SIZE: usize = 8192;

/// The size of the stack of the task that serves a connection, in bytes.
pub const STACK_SIZE: usize = 16384;

/// The end of a connection that is worth a message: any failure, except that the
/// host hung up.
pub open spec fn reported<T>(outcome: Result<(), Error<T>>) -> Option<Error<T>> {
    match outcome {
        Ok(()) => None,
        Err(Error::Io(IoError::UnexpectedEnd)) => None,
        Err(error) => Some(error),
    }
}

/// What to report of a connection that has ended, if anything.
pub fn thread<T>(outcome: Result<(), Error<T>>) -> (report: Option<Error<T>>)
    ensures
        report == reported(outcome),
{
    match outcome {
        Ok(()) => None,
        Err(Error::Io(IoError::UnexpectedEnd)) => None,
        Err(error) => Some(error),
    }
}

} // verus!
