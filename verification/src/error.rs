//! Errors.

use vstd::prelude::*;

use crate::errno::EIO;
use crate::util::NulError;

verus! {

/// An error of an input or output operation.
#[derive(Debug)]
pub enum IoError {
    /// An error number of the operating system.
    Os(i32),

    /// Any other error, with a description.
    Other(String),
}

impl IoError {
    /// The error number with which a request is failed because of this error: that of the
    /// operating system, or `EIO` where there is none.
    pub open spec fn spec_errno(self) -> i32 {
        match self {
            IoError::Os(errno) => errno,
            IoError::Other(_) => EIO,
        }
    }

    /// The error number of the operating system, if this error has one.
    pub fn raw_os_error(&self) -> (res: Option<i32>)
        ensures
            res == (match *self {
                IoError::Os(errno) => Some(errno),
                IoError::Other(_) => None::<i32>,
            }),
    {
        match self {
            IoError::Os(errno) => Some(*errno),
            IoError::Other(_) => None,
        }
    }

    /// The error number with which a request is failed because of this error.
    pub fn errno(&self) -> (res: i32)
        ensures
            res == self.spec_errno(),
    {
        match self.raw_os_error() {
            Some(errno) => errno,
            None => EIO,
        }
    }
}

/// An error of setting up or mounting a session.
#[derive(Debug)]
pub enum Error {
    /// The file system's name holds a zero byte.
    BadName(NulError),

    /// A mount option holds a zero byte.
    BadOption(NulError),

    /// The path of the mount point holds a zero byte.
    BadMountPoint(NulError),

    /// libfuse did not create a session.
    NoSession,

    /// libfuse did not mount the session.
    MountFailed,

    /// The session has no file descriptor.
    NoFileDescriptor,

    /// The operating system reported an error.
    Io(IoError),
}

/// An error of the operating system fails a request with its number, any other with `EIO`.
pub proof fn law_errors_have_numbers(errno: i32, text: String)
    ensures
        IoError::Os(errno).spec_errno() == errno,
        IoError::Other(text).spec_errno() == EIO,
{
}

} // verus!
