//! Which attributes a `Setattr` request sets.

use vstd::prelude::*;

verus! {

pub const MODE: i32 = 1 << 0;

pub const UID: i32 = 1 << 1;

pub const GID: i32 = 1 << 2;

pub const SIZE: i32 = 1 << 3;

pub const ATIME: i32 = 1 << 4;

pub const MTIME: i32 = 1 << 5;

pub const ATIME_NOW: i32 = 1 << 7;

pub const MTIME_NOW: i32 = 1 << 8;

pub const CTIME: i32 = 1 << 10;

} // verus!
