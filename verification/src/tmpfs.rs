//! A file system in memory.

pub mod block_file;
pub mod dir;
pub mod fs;
pub mod handler;
