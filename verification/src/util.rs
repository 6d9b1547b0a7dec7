//! Plain values that cross the boundary to C.

use vstd::prelude::*;
use vstd::slice::slice_to_vec;

verus! {

/// Two to the power of 32.
pub open spec fn two32() -> int {
    0x1_0000_0000
}

/// Two to the power of 64.
pub open spec fn two64() -> int {
    0x1_0000_0000_0000_0000
}

/// What is left of `x` in 32 bits of two's complement.
pub open spec fn wrap_i32(x: int) -> int {
    (x + two32() / 2) % two32() - two32() / 2
}

/// What is left of `x` in 64 bits of two's complement.
pub open spec fn wrap_i64(x: int) -> int {
    (x + two64() / 2) % two64() - two64() / 2
}

/// A conversion from `u64` to `i64` keeps the bits.
pub proof fn lemma_u64_as_i64(x: u64)
    ensures
        x as i64 == wrap_i64(x as int),
{
    assert(x as i64 == if x < 0x8000_0000_0000_0000 {
        x as int
    } else {
        x - 0x1_0000_0000_0000_0000
    }) by (bit_vector);
}

/// A conversion from `isize` to `i32` keeps the low 32 bits.
pub proof fn lemma_isize_as_i32(x: isize)
    ensures
        x as i32 == wrap_i32(x as int),
{
    assert(x as i32 == (x + 0x8000_0000) % 0x1_0000_0000 - 0x8000_0000) by (bit_vector);
}

/// A conversion from `usize` to `i32` keeps the low 32 bits.
pub proof fn lemma_usize_as_i32(x: usize)
    ensures
        x as i32 == wrap_i32(x as int),
{
    assert(x as i32 == (x + 0x8000_0000) % 0x1_0000_0000 - 0x8000_0000) by (bit_vector);
}

/// A conversion from `i64` to `u64` keeps the bits.
pub proof fn lemma_i64_as_u64(x: i64)
    ensures
        x as u64 == x as int % two64(),
{
    assert(x < 0 ==> x as u64 == x + 0x1_0000_0000_0000_0000) by (bit_vector);
}

/// A conversion from `i64` to `u32` keeps the low 32 bits.
pub proof fn lemma_i64_as_u32(x: i64)
    ensures
        x as u32 == x as int % two32(),
{
    assert(x as u32 == (x as u64) % 0x1_0000_0000) by (bit_vector);
    lemma_i64_as_u64(x);
}

/// Whether `at` is the position of the first zero byte of `bytes`.
pub open spec fn is_first_nul(bytes: Seq<u8>, at: int) -> bool {
    &&& 0 <= at < bytes.len()
    &&& bytes[at] == 0
    &&& forall|i: int| 0 <= i < at ==> bytes[i] != 0
}

/// Why bytes cannot be a C string: they hold a zero.
#[derive(Clone, Copy, Debug, PartialEq, Eq, Structural)]
pub struct NulError {
    /// Where the first zero stands.
    pub position: usize,
}

/// The bytes of a C string, without the zero that ends it.
#[derive(Debug)]
pub struct CString {
    bytes: Vec<u8>,
}

impl View for CString {
    type V = Seq<u8>;

    closed spec fn view(&self) -> Seq<u8> {
        self.bytes@
    }
}

impl CString {
    #[verifier::type_invariant]
    spec fn inv(self) -> bool {
        !self.bytes@.contains(0u8)
    }

    /// Takes bytes that hold no zero; the error says where the first zero stands.
    pub fn new(bytes: Vec<u8>) -> (res: Result<CString, NulError>)
        ensures
            match res {
                Ok(c) => c@ == bytes@ && !bytes@.contains(0u8),
                Err(err) => is_first_nul(bytes@, err.position as int),
            },
    {
        let mut i: usize = 0;
        while i < bytes.len()
            invariant
                i <= bytes@.len(),
                forall|j: int| 0 <= j < i ==> bytes@[j] != 0,
            decreases bytes@.len() - i,
        {
            if bytes[i] == 0 {
                return Err(NulError { position: i });
            }
            i = i + 1;
        }
        Ok(CString { bytes })
    }

    /// Takes bytes of which it is known that they hold no zero.
    pub fn from_nonzero(bytes: Vec<u8>) -> (res: CString)
        requires
            !bytes@.contains(0u8),
        ensures
            res@ == bytes@,
    {
        CString { bytes }
    }

    /// The same bytes in a string of their own.
    pub fn duplicate(&self) -> (res: CString)
        ensures
            res@ == self@,
    {
        proof {
            use_type_invariant(self);
        }
        let bytes = slice_to_vec(self.bytes.as_slice());
        CString { bytes }
    }

    /// The bytes without the zero that ends the string.
    pub fn to_bytes(&self) -> (res: &[u8])
        ensures
            res@ == self@,
            !res@.contains(0u8),
    {
        proof {
            use_type_invariant(self);
        }
        self.bytes.as_slice()
    }

    /// The bytes with the zero that ends the string.
    pub fn to_bytes_with_nul(&self) -> (res: Vec<u8>)
        ensures
            res@ == self@.push(0u8),
            is_first_nul(res@, self@.len() as int),
    {
        proof {
            use_type_invariant(self);
        }
        let mut bytes = slice_to_vec(self.bytes.as_slice());
        bytes.push(0);
        proof {
            assert forall|i: int| 0 <= i < self@.len() implies bytes@[i] != 0 by {
                assert(self.bytes@.contains(self.bytes@[i]));
            }
        }
        bytes
    }
}

/// What `stat` tells about a file.
#[derive(Clone, Copy, Debug, PartialEq, Eq, Structural)]
pub struct Stat {
    pub st_dev: u64,
    pub st_ino: u64,
    pub st_nlink: u64,
    pub st_mode: u32,
    pub st_uid: u32,
    pub st_gid: u32,
    pub st_rdev: u64,
    pub st_size: i64,
    pub st_blksize: i64,
    pub st_blocks: i64,
    pub st_atime: i64,
    pub st_atime_nsec: i64,
    pub st_mtime: i64,
    pub st_mtime_nsec: i64,
    pub st_ctime: i64,
    pub st_ctime_nsec: i64,
}

/// A number of seconds for which the kernel may rely on an answer, as the bits of a
/// double-precision number.
#[derive(Clone, Copy, Debug, PartialEq, Eq, Structural)]
pub struct Timeout {
    pub bits: u64,
}

/// The bits of the largest finite double-precision number.
pub const TIMEOUT_MAX_BITS: u64 = 0x7fef_ffff_ffff_ffff;

impl Timeout {
    /// The longest timeout.
    pub open spec fn spec_max() -> Timeout {
        Timeout { bits: TIMEOUT_MAX_BITS }
    }

    /// The longest timeout.
    pub fn max() -> (res: Timeout)
        ensures
            res == Timeout::spec_max(),
    {
        Timeout { bits: TIMEOUT_MAX_BITS }
    }
}

/// Nanoseconds in a second.
pub const NANOS_PER_SEC: u32 = 1_000_000_000;

/// A span of time: whole seconds, and less than one second of nanoseconds.
#[derive(Clone, Copy, Debug, PartialEq, Eq, Structural)]
pub struct Duration {
    pub secs: u64,
    pub nanos: u32,
}

impl View for Duration {
    type V = int;

    /// The span in nanoseconds.
    open spec fn view(&self) -> int {
        self.secs * NANOS_PER_SEC + self.nanos
    }
}

impl Duration {
    /// Whether the nanoseconds stay below one second.
    pub open spec fn wf(self) -> bool {
        self.nanos < NANOS_PER_SEC
    }

    /// The span of `secs` seconds and `nanos` nanoseconds; nanoseconds that make up whole
    /// seconds are carried over.
    pub fn new(secs: u64, nanos: u32) -> (res: Duration)
        requires
            secs + nanos / NANOS_PER_SEC <= u64::MAX,
        ensures
            res.wf(),
            res@ == secs * NANOS_PER_SEC + nanos,
    {
        Duration { secs: secs + (nanos / NANOS_PER_SEC) as u64, nanos: nanos % NANOS_PER_SEC }
    }
}

/// Two spans of the same length are the same value.
pub proof fn law_duration_is_its_length(a: Duration, b: Duration)
    requires
        a.wf(),
        b.wf(),
    ensures
        a@ == b@ <==> a == b,
{
}

/// A C string holds no zero byte: what `CString::new` accepts are exactly the byte strings
/// without one, and each refusal names the first.
pub proof fn law_c_string_or_first_nul(bytes: Seq<u8>)
    ensures
        bytes.contains(0u8) <==> exists|at: int| is_first_nul(bytes, at),
        forall|a: int, b: int| is_first_nul(bytes, a) && is_first_nul(bytes, b) ==> a == b,
{
    if bytes.contains(0u8) {
        lemma_first_nul(bytes, 0);
    }
}

/// Where there is a zero and none before `from`, there is a first one.
proof fn lemma_first_nul(bytes: Seq<u8>, from: int)
    requires
        bytes.contains(0u8),
        0 <= from <= bytes.len(),
        forall|i: int| 0 <= i < from ==> bytes[i] != 0,
    ensures
        exists|at: int| is_first_nul(bytes, at),
    decreases bytes.len() - from,
{
    if from < bytes.len() {
        if bytes[from] == 0 {
            assert(is_first_nul(bytes, from));
        } else {
            lemma_first_nul(bytes, from + 1);
        }
    }
}

/// What is left of a number in 32 or 64 bits is the number itself where it fits, and differs from
/// it by a multiple of what does not fit otherwise.
pub proof fn law_numbers_that_fit_stay(x: int)
    ensures
        i32::MIN <= wrap_i32(x) <= i32::MAX,
        i32::MIN <= x <= i32::MAX ==> wrap_i32(x) == x,
        wrap_i32(x) % 0x1_0000_0000 == x % 0x1_0000_0000,
        i64::MIN <= wrap_i64(x) <= i64::MAX,
        i64::MIN <= x <= i64::MAX ==> wrap_i64(x) == x,
        wrap_i64(x) % 0x1_0000_0000_0000_0000 == x % 0x1_0000_0000_0000_0000,
{
}

/// A span of time is as long as its seconds and nanoseconds together.
pub proof fn law_length_of_a_duration(duration: Duration)
    ensures
        duration@ == duration.secs * 1_000_000_000 + duration.nanos,
        duration.wf() <==> duration.nanos < 1_000_000_000,
{
}

/// The longest timeout is the largest finite number: one more in its bits would be infinity.
pub proof fn law_longest_timeout()
    ensures
        Timeout::spec_max().bits == 0x7ff0_0000_0000_0000 - 1,
{
}

} // verus!
