//! A FUSE session library: typed requests, the replies that answer them, the life of a session
//! and the readiness of its file descriptor. On top of it there is a file system in memory.
//!
//! Nothing in this crate talks to libfuse or to the kernel. Functions take what came back from
//! the outside as plain values and hand out the next call to make as a plain value, so that each
//! of them has an exact contract.

pub mod errno;
pub mod error;
pub mod fuse_fd;
pub mod reply;
pub mod requests;
pub mod session;
pub mod sys;
pub mod tmpfs;
pub mod util;

pub use requests::Request;
pub use session::{Fuse, FuseSession, FuseSessionBuilder};
pub use sys::{EntryParam, ReplyBufState, ROOT_ID};
