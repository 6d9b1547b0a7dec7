//! Numbers of the Linux system interface.

use vstd::prelude::*;

verus! {

/// No such file or directory.
pub const ENOENT: i32 = 2;

/// Input/output error.
pub const EIO: i32 = 5;

/// Bad file descriptor.
pub const EBADF: i32 = 9;

/// Try again.
pub const EAGAIN: i32 = 11;

/// File exists.
pub const EEXIST: i32 = 17;

/// Not a directory.
pub const ENOTDIR: i32 = 20;

/// Is a directory.
pub const EISDIR: i32 = 21;

/// Result too large.
pub const ERANGE: i32 = 34;

/// Function not implemented.
pub const ENOSYS: i32 = 38;

/// Directory not empty.
pub const ENOTEMPTY: i32 = 39;

/// The bits of a mode that tell what kind of file it is.
pub const S_IFMT: u32 = 0o170000;

/// The kind of a directory.
pub const S_IFDIR: u32 = 0o040000;

/// The kind of a regular file.
pub const S_IFREG: u32 = 0o100000;

/// `O_NONBLOCK` of `fcntl`.
pub const O_NONBLOCK: i32 = 0o4000;

} // verus!
