//! A "block" based sparse vector.

use vstd::arithmetic::power2::is_pow2;
use vstd::prelude::*;
use vstd::slice::slice_subrange;

verus! {

/// Bytes that were written next to each other.
#[derive(Debug)]
pub struct Extent {
    offset: u64,
    data: Vec<u8>,
}

impl Extent {
    /// Where the extent ends.
    spec fn end(self) -> int {
        self.offset + self.data@.len()
    }

    /// Whether the byte at `pos` is in the extent.
    spec fn covers(self, pos: int) -> bool {
        self.offset <= pos < self.end()
    }
}

/// The contents of a file. What was never written is zero, and takes no space where it spans
/// blocks.
#[derive(Debug)]
pub struct BlockFile {
    extents: Vec<Extent>,
    block_mask: u64,
    max_extent_size: usize,
}

/// Bytes with `data` at `offset` in place of what was there; zeroes fill the space up to it where
/// the bytes end before.
pub open spec fn overwrite(bytes: Seq<u8>, data: Seq<u8>, offset: int) -> Seq<u8> {
    Seq::new(
        if bytes.len() < offset + data.len() {
            (offset + data.len()) as nat
        } else {
            bytes.len()
        },
        |i: int|
            if offset <= i < offset + data.len() {
                data[i - offset]
            } else if i < bytes.len() {
                bytes[i]
            } else {
                0u8
            },
    )
}

/// Whether extents follow each other, each beginning where a block begins.
spec fn in_order(extents: Seq<Extent>, block: int, max: int) -> bool {
    &&& forall|i: int|
        0 <= i < extents.len() ==> (#[trigger] extents[i]).offset as int % block == 0
            && extents[i].data@.len() <= max && extents[i].end() <= u64::MAX
    &&& forall|i: int, j: int|
        0 <= i < j < extents.len() ==> (#[trigger] extents[i]).offset < (
        #[trigger] extents[j]).offset && extents[i].end() <= extents[j].offset
}

/// Where the last extent ends.
spec fn extents_end(extents: Seq<Extent>) -> int {
    if extents.len() == 0 {
        0
    } else {
        extents.last().end()
    }
}

/// Which extent has the byte at `pos`.
spec fn has_byte(extents: Seq<Extent>, i: int, pos: int) -> bool {
    0 <= i < extents.len() && extents[i].covers(pos)
}

/// The byte at `pos`, which is zero unless an extent has it.
spec fn byte_at(extents: Seq<Extent>, pos: int) -> u8 {
    if exists|i: int| has_byte(extents, i, pos) {
        let i = choose|i: int| has_byte(extents, i, pos);
        extents[i].data@[pos - extents[i].offset]
    } else {
        0
    }
}

/// The bytes that extents hold.
spec fn contents(extents: Seq<Extent>) -> Seq<u8> {
    Seq::new(extents_end(extents) as nat, |pos: int| byte_at(extents, pos))
}

impl View for BlockFile {
    type V = Seq<u8>;

    /// The bytes of the file.
    closed spec fn view(&self) -> Seq<u8> {
        contents(self.extents@)
    }
}

/// Rounding down to a multiple of `block` gives one, which is at least `block` if that fits.
proof fn lemma_round_down(x: int, block: int)
    requires
        0 <= x,
        0 < block,
    ensures
        0 <= x - x % block <= x < x - x % block + block,
        (x - x % block) % block == 0,
        block <= x ==> block <= x - x % block,
{
    assert(x == block * (x / block) + x % block) by (nonlinear_arith)
        requires
            0 < block,
    ;
    assert((block * (x / block)) % block == 0) by (nonlinear_arith)
        requires
            0 < block,
    ;
    if block <= x {
        assert(x / block >= 1) by (nonlinear_arith)
            requires
                0 < block <= x,
        ;
        assert(block * (x / block) >= block) by (nonlinear_arith)
            requires
                0 < block,
                x / block >= 1,
        ;
    }
    assert(0 <= x % block < block) by (nonlinear_arith)
        requires
            0 < block,
    ;
    assert(0 <= x - x % block) by (nonlinear_arith)
        requires
            0 <= x,
            0 < block,
    ;
}

/// A byte that an extent has is the one of the file.
proof fn lemma_byte(extents: Seq<Extent>, block: int, max: int, i: int, pos: int)
    requires
        in_order(extents, block, max),
        has_byte(extents, i, pos),
    ensures
        byte_at(extents, pos) == extents[i].data@[pos - extents[i].offset],
{
    let k = choose|k: int| has_byte(extents, k, pos);
    assert(has_byte(extents, k, pos));
    if k < i {
        assert(extents[k].end() <= extents[i].offset);
    } else if i < k {
        assert(extents[i].end() <= extents[k].offset);
    }
}

/// Between the extents before the one at `i` and that one there are zeroes.
proof fn lemma_hole(extents: Seq<Extent>, block: int, max: int, i: int, pos: int)
    requires
        in_order(extents, block, max),
        0 <= i <= extents.len(),
        i < extents.len() ==> pos < extents[i].offset,
        i > 0 ==> extents[i - 1].end() <= pos,
    ensures
        byte_at(extents, pos) == 0,
{
    assert forall|k: int| !has_byte(extents, k, pos) by {
        if 0 <= k < i - 1 {
            assert(extents[k].end() <= extents[i - 1].offset);
        } else if i < k < extents.len() {
            assert(extents[i].offset < extents[k].offset);
        }
    }
}

/// Appends zeroes until there are `len` bytes.
fn fill_zeroes(bytes: &mut Vec<u8>, len: usize)
    requires
        old(bytes)@.len() <= len,
    ensures
        final(bytes)@ == overwrite(old(bytes)@, Seq::empty(), len as int),
{
    while bytes.len() < len
        invariant
            old(bytes)@.len() <= bytes@.len() <= len,
            bytes@ == overwrite(old(bytes)@, Seq::empty(), bytes@.len() as int),
        decreases len - bytes@.len(),
    {
        bytes.push(0);
        assert(bytes@ == overwrite(old(bytes)@, Seq::empty(), bytes@.len() as int));
    }
}

/// Puts `data` at `at` in place of what is there.
fn put(bytes: &mut Vec<u8>, data: &[u8], at: usize)
    requires
        at + data@.len() <= usize::MAX,
    ensures
        final(bytes)@ == overwrite(old(bytes)@, data@, at as int),
{
    if bytes.len() < at {
        fill_zeroes(bytes, at);
    }
    assert(bytes@ == overwrite(old(bytes)@, data@.take(0), at as int));
    let mut i: usize = 0;
    while i < data.len()
        invariant
            i <= data@.len(),
            at + data@.len() <= usize::MAX,
            at + i <= bytes@.len(),
            bytes@ == overwrite(old(bytes)@, data@.take(i as int), at as int),
        decreases data@.len() - i,
    {
        if at + i < bytes.len() {
            bytes.set(at + i, data[i]);
        } else {
            bytes.push(data[i]);
        }
        i = i + 1;
        assert(bytes@ == overwrite(old(bytes)@, data@.take(i as int), at as int));
    }
    assert(data@.take(data@.len() as int) == data@);
}

impl BlockFile {
    /// Whether the extents are in order, and the sizes fit each other.
    pub closed spec fn wf(self) -> bool {
        &&& 0 < self.block()
        &&& self.max_extent_size as int % self.block() == 0
        &&& self.block() <= self.max_extent_size <= 0x7fff_ffff
        &&& in_order(self.extents@, self.block(), self.max_extent_size as int)
    }

    /// Where extents may begin: at the multiples of this.
    spec fn block(self) -> int {
        self.block_mask + 1
    }

    /// An empty file.
    pub fn new(block_size: usize) -> (res: BlockFile)
        requires
            is_pow2(block_size as int),
            block_size <= 0x2000_0000,
        ensures
            res.wf(),
            res@ == Seq::<u8>::empty(),
            forall|s: int| #[trigger] res.end_before(s) == 0,
    {
        proof {
            reveal(is_pow2);
        }
        let block_mask: u64 = 2 * block_size as u64 - 1;
        let max_extent_size: usize = 0x7fff_ffff - 0x7fff_ffff % (2 * block_size);
        proof {
            lemma_round_down(0x7fff_ffff, block_mask + 1);
        }
        BlockFile { extents: Vec::new(), block_mask, max_extent_size }
    }

    /// How many bytes the file has.
    pub fn size(&self) -> (res: u64)
        requires
            self.wf(),
        ensures
            res == self@.len(),
    {
        if self.extents.len() == 0 {
            0
        } else {
            let last = &self.extents[self.extents.len() - 1];
            last.offset + last.data.len() as u64
        }
    }

    /// A binary search for the extent that begins at `offset`. Where there is none, the error is
    /// how many extents begin before `offset`.
    fn search_extent(&self, offset: u64) -> (res: Result<usize, usize>)
        requires
            self.wf(),
        ensures
            match res {
                Ok(i) => i < self.extents@.len() && self.extents@[i as int].offset == offset,
                Err(n) => {
                    &&& n <= self.extents@.len()
                    &&& forall|i: int| 0 <= i < n ==> (#[trigger] self.extents@[i]).offset < offset
                    &&& forall|i: int|
                        n <= i < self.extents@.len() ==> offset < (
                        #[trigger] self.extents@[i]).offset
                },
            },
    {
        let mut a: usize = 0;
        let mut b: usize = self.extents.len();
        while a < b
            invariant
                a <= b <= self.extents@.len(),
                self.wf(),
                forall|i: int| 0 <= i < a ==> (#[trigger] self.extents@[i]).offset < offset,
                forall|i: int|
                    b <= i < self.extents@.len() ==> offset < (#[trigger] self.extents@[i]).offset,
            decreases b - a,
        {
            let i: usize = a + (b - a) / 2;  // since `(a + b)/2` might overflow... in theory
            let entry_ofs = self.extents[i].offset;
            if offset < entry_ofs {
                b = i;
            } else if offset > entry_ofs {
                a = i + 1;
            } else {
                return Ok(i);
            }
        }
        Err(a)
    }

    /// How many extents begin at or before `offset`. The last of them is where a byte at `offset`
    /// may be.
    fn extents_before(&self, offset: u64) -> (res: usize)
        requires
            self.wf(),
        ensures
            res <= self.extents@.len(),
            forall|i: int| 0 <= i < res ==> (#[trigger] self.extents@[i]).offset <= offset,
            forall|i: int|
                res <= i < self.extents@.len() ==> offset < (#[trigger] self.extents@[i]).offset,
    {
        match self.search_extent(offset) {
            Ok(i) => {
                assert(i < self.extents.len());
                i + 1
            },
            Err(n) => n,
        }
    }

    /// The bytes from `offset` on, `len` of them or as many as there are.
    pub fn read(&self, len: usize, offset: u64) -> (res: Vec<u8>)
        requires
            self.wf(),
            offset <= self@.len(),
        ensures
            res@ == self@.subrange(
                offset as int,
                if offset + len <= self@.len() {
                    offset + len
                } else {
                    self@.len() as int
                },
            ),
    {
        let remaining = self.size() - offset;
        let len = if len as u64 > remaining {
            remaining as usize
        } else {
            len
        };
        let mut buf: Vec<u8> = Vec::new();
        let before = self.extents_before(offset);
        // in the first one we may be starting in the middle:
        let mut i: usize = if before > 0 {
            before - 1
        } else {
            0
        };
        proof {
            assert forall|j: int| 0 <= j < i implies (#[trigger] self.extents@[j]).end()
                <= offset by {
                assert(self.extents@[j].end() <= self.extents@[i as int].offset);
            }
        }
        while buf.len() < len
            invariant
                self.wf(),
                buf@.len() <= len,
                offset + len <= self@.len(),
                buf@ == self@.subrange(offset as int, offset + buf@.len()),
                i <= self.extents@.len(),
                buf@.len() < len ==> forall|j: int|
                    0 <= j < i ==> (#[trigger] self.extents@[j]).end() <= offset + buf@.len(),
                i < self.extents@.len() || buf@.len() == len,
            decreases self.extents@.len() - i, len - buf@.len(),
        {
            let extent = &self.extents[i];
            let pos = offset + buf.len() as u64;
            if pos < extent.offset {
                // nothing was written up to the extent
                let empty_len = extent.offset - pos;
                let end: usize = if empty_len < (len - buf.len()) as u64 {
                    buf.len() + empty_len as usize
                } else {
                    len
                };
                fill_zeroes(&mut buf, end);
                proof {
                    assert forall|p: int| pos <= p < offset + end implies self@[p] == 0 by {
                        lemma_hole(
                            self.extents@,
                            self.block(),
                            self.max_extent_size as int,
                            i as int,
                            p,
                        );
                    }
                    assert(buf@ == self@.subrange(offset as int, offset + buf@.len()));
                }
            } else {
                let inside = pos - extent.offset;
                if inside < extent.data.len() as u64 {
                    let inside = inside as usize;
                    let count: usize = if extent.data.len() - inside < len - buf.len() {
                        extent.data.len() - inside
                    } else {
                        len - buf.len()
                    };
                    buf.extend_from_slice(
                        slice_subrange(extent.data.as_slice(), inside, inside + count),
                    );
                    proof {
                        assert forall|p: int| pos <= p < pos + count implies self@[p]
                            == extent.data@[p - extent.offset] by {
                            lemma_byte(
                                self.extents@,
                                self.block(),
                                self.max_extent_size as int,
                                i as int,
                                p,
                            );
                        }
                        assert(buf@ == self@.subrange(offset as int, offset + buf@.len()));
                    }
                }
                assert(i < self.extents.len());
                i = i + 1;
            }
        }
        buf
    }

    /// Where the data ends that lies before `size`.
    pub closed spec fn end_before(self, size: int) -> nat {
        end_before(self.extents@, size) as nat
    }

    /// Drop what lies at `size` or after it. The file then ends where the data before `size` ends.
    pub fn truncate(&mut self, size: u64)
        requires
            old(self).wf(),
        ensures
            final(self).wf(),
            final(self)@ == old(self)@.take(old(self).end_before(size as int) as int),
            size > old(self)@.len() ==> final(self)@ == old(self)@,
            old(self).end_before(size as int) <= size,
            old(self).end_before(size as int) <= old(self)@.len(),
            forall|pos: int|
                old(self).end_before(size as int) <= pos < size && pos < old(self)@.len()
                    ==> old(self)@[pos] == 0,
            forall|s: int| #[trigger]
                final(self).end_before(s) == old(self).end_before(
                    if s < size {
                        s
                    } else {
                        size as int
                    },
                ),
    {
        let n = match self.search_extent(size) {
            Ok(i) => i,
            Err(n) => n,
        };
        let ghost extents = self.extents@;
        let ghost block = self.block();
        let ghost max = self.max_extent_size as int;
        self.extents.truncate(n);
        if n > 0 {
            let begin = self.extents[n - 1].offset;
            if size - begin < self.extents[n - 1].data.len() as u64 {
                self.extents[n - 1].data.truncate((size - begin) as usize);
            }
        }
        proof {
            lemma_truncate(extents, block, max, n as int, size as int, self.extents@);
            assert forall|s: int| #[trigger] self.end_before(s) == old(self).end_before(
                if s < size {
                    s
                } else {
                    size as int
                },
            ) by {
                lemma_truncate_end(extents, block, max, n as int, size as int, self.extents@, s);
            }
        }
    }

    /// Writes as many of the bytes at `offset` as one extent can take, and says how many. That
    /// is at least one, unless there are none.
    fn write_some(&mut self, buf: &[u8], offset: u64) -> (res: usize)
        requires
            old(self).wf(),
            offset + buf@.len() <= u64::MAX,
        ensures
            final(self).wf(),
            res <= buf@.len(),
            buf@.len() > 0 ==> res > 0,
            final(self)@ == overwrite(old(self)@, buf@.take(res as int), offset as int),
            written_between(*old(self), *final(self), offset as int, offset + res),
    {
        let n = self.extents_before(offset);
        // up to the next extent, in the space that an extent may take
        let mut possible: usize = buf.len();
        if n < self.extents.len() && self.extents[n].offset - offset < possible as u64 {
            possible = (self.extents[n].offset - offset) as usize;
        }
        let ghost extents = self.extents@;
        let ghost block = self.block();
        let ghost max = self.max_extent_size as int;
        if n > 0 && offset - self.extents[n - 1].offset < self.max_extent_size as u64 {
            let in_ofs = (offset - self.extents[n - 1].offset) as usize;
            if self.max_extent_size - in_ofs < possible {
                possible = self.max_extent_size - in_ofs;
            }
            put(&mut self.extents[n - 1].data, slice_subrange(buf, 0, possible), in_ofs);
            proof {
                lemma_put(
                    extents,
                    block,
                    max,
                    n - 1,
                    buf@.take(possible as int),
                    offset as int,
                    self.extents@,
                );
                assert forall|s: int| ends_as_written(
                    old(self).end_before(s) as int,
                    (#[trigger] self.end_before(s)) as int,
                    offset as int,
                    offset + possible,
                    s,
                ) by {
                    lemma_put_end(
                        extents,
                        block,
                        max,
                        n - 1,
                        buf@.take(possible as int),
                        offset as int,
                        self.extents@,
                        s,
                    );
                }
            }
        } else {
            proof {
                lemma_round_down(offset as int, block);
            }
            let leading_zeros = (offset % (self.block_mask + 1)) as usize;
            let block_ofs = offset - leading_zeros as u64;
            if self.max_extent_size - leading_zeros < possible {
                possible = self.max_extent_size - leading_zeros;
            }
            let mut data: Vec<u8> = Vec::new();
            put(&mut data, slice_subrange(buf, 0, possible), leading_zeros);
            let extent = Extent { offset: block_ofs, data };
            proof {
                lemma_insert(
                    extents,
                    block,
                    max,
                    n as int,
                    buf@.take(possible as int),
                    offset as int,
                    extent,
                );
            }
            let ghost inserted = extent;
            self.extents.insert(n, extent);
            proof {
                assert forall|s: int| ends_as_written(
                    old(self).end_before(s) as int,
                    (#[trigger] self.end_before(s)) as int,
                    offset as int,
                    offset + possible,
                    s,
                ) by {
                    lemma_insert_end(
                        extents,
                        block,
                        max,
                        n as int,
                        buf@.take(possible as int),
                        offset as int,
                        inserted,
                        s,
                    );
                }
            }
        }
        possible
    }

    /// Put bytes at `offset` in place of what was there.
    pub fn write(&mut self, buf: &[u8], offset: u64)
        requires
            old(self).wf(),
            offset + buf@.len() <= u64::MAX,
        ensures
            final(self).wf(),
            final(self)@ == overwrite(old(self)@, buf@, offset as int),
            forall|s: int|
                offset < s <= offset + buf@.len() ==> #[trigger] final(self).end_before(s) == s,
            written_between(*old(self), *final(self), offset as int, offset + buf@.len()),
    {
        let mut done = self.write_some(buf, offset);
        while done < buf.len()
            invariant
                self.wf(),
                done <= buf@.len(),
                offset + buf@.len() <= u64::MAX,
                self@ == overwrite(old(self)@, buf@.take(done as int), offset as int),
                written_between(*old(self), *self, offset as int, offset + done),
            decreases buf@.len() - done,
        {
            let rest = slice_subrange(buf, done, buf.len());
            let ghost before = *self;
            let count = self.write_some(rest, offset + done as u64);
            proof {
                let first = buf@.take(done as int);
                let second = rest@.take(count as int);
                law_write_in_pieces(old(self)@, first, second, offset as int);
                assert(first + second == buf@.take(done + count));
                assert forall|s: int| ends_as_written(
                    old(self).end_before(s) as int,
                    (#[trigger] self.end_before(s)) as int,
                    offset as int,
                    offset + done + count,
                    s,
                ) by {
                    assert(ends_as_written(
                        old(self).end_before(s) as int,
                        before.end_before(s) as int,
                        offset as int,
                        offset + done,
                        s,
                    ));
                    assert(ends_as_written(
                        before.end_before(s) as int,
                        self.end_before(s) as int,
                        offset + done,
                        offset + done + count,
                        s,
                    ));
                }
            }
            done = done + count;
        }
        assert(buf@.take(buf@.len() as int) == buf@);
    }
}

/// How a write of the bytes from `from` to `to` changes where the data ends that lies before `s`:
/// within what was written it is there, and after it no earlier than it. Before it, zeroes may
/// have been filled in.
pub open spec fn ends_as_written(before: int, after: int, from: int, to: int, s: int) -> bool {
    if s < 0 {
        after == before
    } else if s <= from {
        before <= after <= s
    } else if s <= to {
        after == s
    } else if before < to {
        after == to
    } else {
        after == before
    }
}

/// Whether the data ends as it does after a write of the bytes from `from` to `to`.
pub open spec fn written_between(before: BlockFile, after: BlockFile, from: int, to: int) -> bool {
    forall|s: int|
        ends_as_written(
            before.end_before(s) as int,
            (#[trigger] after.end_before(s)) as int,
            from,
            to,
            s,
        )
}

/// The data before `s` ends no later than `s` or the file; that before a place beyond the end of
/// the file ends where the file ends.
pub proof fn law_data_ends_within(file: BlockFile, s: int)
    requires
        file.wf(),
    ensures
        s >= 0 ==> file.end_before(s) <= s,
        file.end_before(s) <= file@.len(),
        s > file@.len() ==> file.end_before(s) == file@.len(),
{
    let extents = file.extents@;
    let n = lemma_count_before(extents, file.block(), file.max_extent_size as int, s);
    lemma_end_before(extents, n, s);
    if 0 < n < extents.len() {
        assert(extents[n - 1].end() <= extents[extents.len() - 1].offset);
    }
}

/// So many extents begin before `s`.
proof fn lemma_count_before(extents: Seq<Extent>, block: int, max: int, s: int) -> (n: int)
    requires
        in_order(extents, block, max),
    ensures
        0 <= n <= extents.len(),
        forall|i: int| 0 <= i < n ==> (#[trigger] extents[i]).offset < s,
        forall|i: int| n <= i < extents.len() ==> s <= (#[trigger] extents[i]).offset,
    decreases extents.len(),
{
    if extents.len() == 0 {
        0
    } else if extents[extents.len() - 1].offset < s {
        assert forall|i: int| 0 <= i < extents.len() implies (#[trigger] extents[i]).offset < s by {
            if i < extents.len() - 1 {
                assert(extents[i].offset < extents[extents.len() - 1].offset);
            }
        }
        extents.len() as int
    } else {
        let rest = extents.drop_last();
        assert(in_order(rest, block, max)) by {
            assert forall|i: int, j: int| 0 <= i < j < rest.len() implies (
            #[trigger] rest[i]).offset < (#[trigger] rest[j]).offset && rest[i].end()
                <= rest[j].offset by {
                assert(extents[i].offset < extents[j].offset);
            }
        }
        let n = lemma_count_before(rest, block, max, s);
        assert forall|i: int| 0 <= i < n implies (#[trigger] extents[i]).offset < s by {
            assert(rest[i] == extents[i]);
        }
        assert forall|i: int| n <= i < extents.len() implies s <= (
        #[trigger] extents[i]).offset by {
            if i < rest.len() {
                assert(rest[i] == extents[i]);
            }
        }
        n
    }
}

/// Where the data ends after cutting the extents at `size`.
proof fn lemma_truncate_end(
    extents: Seq<Extent>,
    block: int,
    max: int,
    n: int,
    size: int,
    cut: Seq<Extent>,
    s: int,
)
    requires
        in_order(extents, block, max),
        in_order(cut, block, max),
        0 <= n <= extents.len(),
        forall|i: int| 0 <= i < n ==> (#[trigger] extents[i]).offset < size,
        forall|i: int| n <= i < extents.len() ==> size <= (#[trigger] extents[i]).offset,
        cut.len() == n,
        forall|i: int| 0 <= i < n - 1 ==> cut[i] == extents[i],
        n > 0 ==> {
            &&& cut[n - 1].offset == extents[n - 1].offset
            &&& cut[n - 1].data@ == if extents[n - 1].end() <= size {
                extents[n - 1].data@
            } else {
                extents[n - 1].data@.take(size - extents[n - 1].offset)
            }
        },
    ensures
        end_before(cut, s) == end_before(
            extents,
            if s < size {
                s
            } else {
                size
            },
        ),
{
    let t = if s < size {
        s
    } else {
        size
    };
    let k = lemma_count_before(extents, block, max, t);
    lemma_end_before(extents, k, t);
    assert(k <= n) by {
        if n < k {
            assert(extents[n].offset < t);
        }
    }
    assert forall|i: int| 0 <= i < n implies (#[trigger] cut[i]).offset == extents[i].offset by {}
    if s >= size && k < n {
        assert(extents[k].offset < size);
    }
    lemma_end_before(cut, k, s);
}

/// Where the data ends after overwriting within an extent.
proof fn lemma_put_end(
    extents: Seq<Extent>,
    block: int,
    max: int,
    i: int,
    data: Seq<u8>,
    offset: int,
    after: Seq<Extent>,
    s: int,
)
    requires
        in_order(extents, block, max),
        0 <= i < extents.len(),
        extents[i].offset <= offset,
        i + 1 < extents.len() ==> offset < extents[i + 1].offset && offset + data.len()
            <= extents[i + 1].offset,
        after.len() == extents.len(),
        forall|k: int| 0 <= k < extents.len() && k != i ==> after[k] == extents[k],
        after[i].offset == extents[i].offset,
        after[i].data@ == overwrite(extents[i].data@, data, offset - extents[i].offset),
    ensures
        ends_as_written(
            end_before(extents, s) as nat as int,
            end_before(after, s) as nat as int,
            offset,
            offset + data.len(),
            s,
        ),
{
    let n = lemma_count_before(extents, block, max, s);
    lemma_end_before(extents, n, s);
    assert forall|k: int| 0 <= k < extents.len() implies (#[trigger] after[k]).offset
        == extents[k].offset by {}
    lemma_end_before(after, n, s);
    if n > i + 1 {
        assert(extents[i + 1].offset < s);
        assert(n - 1 == i + 1 || extents[i + 1].offset < extents[n - 1].offset);
    } else if n < i + 1 {
        assert(s <= extents[i].offset);
    }
}

/// Where the data ends after adding an extent.
proof fn lemma_insert_end(
    extents: Seq<Extent>,
    block: int,
    max: int,
    n: int,
    data: Seq<u8>,
    offset: int,
    extent: Extent,
    s: int,
)
    requires
        in_order(extents, block, max),
        in_order(extents.insert(n, extent), block, max),
        0 <= n <= extents.len(),
        n < extents.len() ==> offset < extents[n].offset && offset + data.len()
            <= extents[n].offset,
        extent.offset <= offset,
        extent.data@ == overwrite(Seq::empty(), data, offset - extent.offset),
    ensures
        ends_as_written(
            end_before(extents, s) as nat as int,
            end_before(extents.insert(n, extent), s) as nat as int,
            offset,
            offset + data.len(),
            s,
        ),
{
    let after = extents.insert(n, extent);
    let k = lemma_count_before(extents, block, max, s);
    lemma_end_before(extents, k, s);
    let l = lemma_count_before(after, block, max, s);
    lemma_end_before(after, l, s);
    assert(after[n] == extent);
    assert forall|i: int| 0 <= i < n implies after[i] == extents[i] by {}
    assert forall|i: int| n <= i < extents.len() implies after[i + 1] == extents[i] by {}
    if n > 0 {
        assert(after[n - 1].end() <= after[n].offset);
    }
    if extent.offset < s {
        assert(k >= n) by {
            if k < n {
                assert(after[k].offset < after[n].offset);
            }
        }
        assert(l == k + 1) by {
            if l <= k {
                assert(l != n);
                assert(l < n ==> after[l].offset == extents[l].offset);
                assert(l > n ==> after[l] == extents[l - 1]);
            } else if l > k + 1 {
                assert(after[k + 1] == extents[k]);
            }
        }
        if k > n {
            assert(extents[n].offset < s);
            assert(k - 1 == n || extents[n].offset < extents[k - 1].offset);
            assert(after[k] == extents[k - 1]);
        }
    } else {
        assert(l <= n) by {
            if n < l {
                assert(after[n].offset < s);
            }
        }
        assert(l == k) by {
            if l < k {
                assert(l < extents.len() && extents[l].offset < s);
                assert(after[if l < n {
                    l
                } else {
                    l + 1
                }] == extents[l]);
            } else if k < l {
                assert(after[k].offset < s);
                assert(after[k] == extents[k]);
            }
        }
    }
}

/// Where the data of extents ends that lies before `size`.
spec fn end_before(extents: Seq<Extent>, size: int) -> int
    decreases extents.len(),
{
    if extents.len() == 0 {
        0
    } else if extents.last().offset >= size {
        end_before(extents.drop_last(), size)
    } else if extents.last().end() < size {
        extents.last().end()
    } else {
        size
    }
}

/// The extents that begin before `size` are what `end_before` speaks of.
proof fn lemma_end_before(extents: Seq<Extent>, n: int, size: int)
    requires
        0 <= n <= extents.len(),
        n > 0 ==> extents[n - 1].offset < size,
        forall|i: int| n <= i < extents.len() ==> size <= (#[trigger] extents[i]).offset,
    ensures
        end_before(extents, size) == if n == 0 {
            0
        } else if extents[n - 1].end() < size {
            extents[n - 1].end()
        } else {
            size
        },
    decreases extents.len(),
{
    if extents.len() > n {
        assert(extents.last() == extents[extents.len() - 1]);
        lemma_end_before(extents.drop_last(), n, size);
    }
}

/// The extents that begin before `size`, the last of them cut there, hold the bytes before.
proof fn lemma_truncate(
    extents: Seq<Extent>,
    block: int,
    max: int,
    n: int,
    size: int,
    cut: Seq<Extent>,
)
    requires
        in_order(extents, block, max),
        0 <= n <= extents.len(),
        0 <= size,
        forall|i: int| 0 <= i < n ==> (#[trigger] extents[i]).offset < size,
        forall|i: int| n <= i < extents.len() ==> size <= (#[trigger] extents[i]).offset,
        cut.len() == n,
        forall|i: int| 0 <= i < n - 1 ==> cut[i] == extents[i],
        n > 0 ==> {
            &&& cut[n - 1].offset == extents[n - 1].offset
            &&& cut[n - 1].data@ == if extents[n - 1].end() <= size {
                extents[n - 1].data@
            } else {
                extents[n - 1].data@.take(size - extents[n - 1].offset)
            }
        },
    ensures
        in_order(cut, block, max),
        ({
            let end = end_before(extents, size);
            &&& 0 <= end <= size
            &&& end <= contents(extents).len()
            &&& contents(cut) == contents(extents).take(end)
            &&& forall|pos: int|
                end <= pos < size && pos < contents(extents).len() ==> contents(extents)[pos] == 0
        }),
{
    lemma_end_before(extents, n, size);
    let end = end_before(extents, size);
    if 0 < n < extents.len() {
        assert(extents[n - 1].end() <= extents[extents.len() - 1].offset);
    }
    assert(in_order(cut, block, max)) by {
        assert forall|i: int, j: int| 0 <= i < j < cut.len() implies (#[trigger] cut[i]).offset < (
        #[trigger] cut[j]).offset && cut[i].end() <= cut[j].offset by {
            assert(extents[i].offset < extents[j].offset);
        }
    }
    assert(extents_end(cut) == end);
    assert forall|pos: int| 0 <= pos < end implies byte_at(cut, pos) == byte_at(extents, pos) by {
        if exists|i: int| has_byte(cut, i, pos) {
            let i = choose|i: int| has_byte(cut, i, pos);
            assert(has_byte(extents, i, pos));
            lemma_byte(cut, block, max, i, pos);
            lemma_byte(extents, block, max, i, pos);
        } else {
            assert forall|i: int| !has_byte(extents, i, pos) by {
                if has_byte(extents, i, pos) {
                    assert(i < n);
                    assert(has_byte(cut, i, pos));
                }
            }
        }
    }
    assert forall|pos: int| end <= pos < size && pos < contents(extents).len() implies contents(
        extents,
    )[pos] == 0 by {
        lemma_hole(extents, block, max, n, pos);
    }
    assert(contents(cut) =~= contents(extents).take(end));
}

/// Overwriting within an extent overwrites the file.
proof fn lemma_put(
    extents: Seq<Extent>,
    block: int,
    max: int,
    i: int,
    data: Seq<u8>,
    offset: int,
    after: Seq<Extent>,
)
    requires
        in_order(extents, block, max),
        0 <= i < extents.len(),
        extents[i].offset <= offset,
        offset + data.len() <= u64::MAX,
        offset - extents[i].offset + data.len() <= max,
        i + 1 < extents.len() ==> offset + data.len() <= extents[i + 1].offset,
        after.len() == extents.len(),
        forall|k: int| 0 <= k < extents.len() && k != i ==> after[k] == extents[k],
        after[i].offset == extents[i].offset,
        after[i].data@ == overwrite(extents[i].data@, data, offset - extents[i].offset),
    ensures
        in_order(after, block, max),
        contents(after) == overwrite(contents(extents), data, offset),
{
    assert(in_order(after, block, max)) by {
        assert forall|a: int, b: int| 0 <= a < b < after.len() implies (#[trigger] after[a]).offset
            < (#[trigger] after[b]).offset && after[a].end() <= after[b].offset by {
            assert(extents[a].offset < extents[b].offset);
            assert(extents[a].end() <= extents[b].offset);
            if a == i && b > i + 1 {
                assert(extents[i + 1].offset < extents[b].offset);
            }
        }
    }
    let whole = overwrite(contents(extents), data, offset);
    if i < extents.len() - 1 {
        assert(i + 1 == extents.len() - 1 || extents[i + 1].offset < extents[extents.len()
            - 1].offset);
    }
    assert(extents_end(after) == whole.len());
    assert forall|pos: int| 0 <= pos < whole.len() implies byte_at(after, pos) == whole[pos] by {
        if exists|k: int| has_byte(after, k, pos) {
            let k = choose|k: int| has_byte(after, k, pos);
            lemma_byte(after, block, max, k, pos);
            if k != i {
                assert(has_byte(extents, k, pos));
                lemma_byte(extents, block, max, k, pos);
                assert(after[k].offset < after[i].offset || after[i].offset < after[k].offset);
            } else if extents[i].covers(pos) {
                assert(has_byte(extents, i, pos));
                lemma_byte(extents, block, max, i, pos);
            } else if !(offset <= pos < offset + data.len()) {
                lemma_hole(extents, block, max, i + 1, pos);
            }
        } else {
            assert(!has_byte(after, i, pos));
            assert forall|k: int| !has_byte(extents, k, pos) by {
                if has_byte(extents, k, pos) {
                    assert(has_byte(after, k, pos));
                }
            }
        }
    }
    assert(contents(after) =~= whole);
}

/// A new extent overwrites the file.
proof fn lemma_insert(
    extents: Seq<Extent>,
    block: int,
    max: int,
    n: int,
    data: Seq<u8>,
    offset: int,
    extent: Extent,
)
    requires
        in_order(extents, block, max),
        0 < block <= max,
        max % block == 0,
        0 <= n <= extents.len(),
        offset + data.len() <= u64::MAX,
        n > 0 ==> extents[n - 1].offset + max <= offset,
        n < extents.len() ==> offset < extents[n].offset && offset + data.len()
            <= extents[n].offset,
        extent.offset == offset - offset % block,
        offset % block + data.len() <= max,
        extent.data@ == overwrite(Seq::empty(), data, offset % block),
    ensures
        in_order(extents.insert(n, extent), block, max),
        contents(extents.insert(n, extent)) == overwrite(contents(extents), data, offset),
{
    let after = extents.insert(n, extent);
    lemma_round_down(offset, block);
    if n > 0 {
        lemma_multiple_below(extents[n - 1].offset as int, max, offset, block);
    }
    assert forall|k: int| 0 <= k < after.len() implies after[k] == (if k < n {
        extents[k]
    } else if k == n {
        extent
    } else {
        extents[k - 1]
    }) by {}
    assert(in_order(after, block, max)) by {
        assert forall|a: int, b: int| 0 <= a < b < after.len() implies (#[trigger] after[a]).offset
            < (#[trigger] after[b]).offset && after[a].end() <= after[b].offset by {
            let x = if a < n {
                a
            } else {
                a - 1
            };
            let y = if b < n {
                b
            } else {
                b - 1
            };
            if a != n && b != n {
                assert(extents[x].offset < extents[y].offset);
                assert(extents[x].end() <= extents[y].offset);
            } else if b == n {
                assert(a == n - 1 || extents[a].end() <= extents[n - 1].offset);
            } else {
                assert(b == n + 1 || extents[n].offset < extents[b - 1].offset);
            }
        }
    }
    let whole = overwrite(contents(extents), data, offset);
    if n < extents.len() {
        assert(n == extents.len() - 1 || extents[n].offset < extents[extents.len() - 1].offset);
    }
    assert(extents_end(after) == whole.len());
    assert forall|pos: int| 0 <= pos < whole.len() implies byte_at(after, pos) == whole[pos] by {
        if exists|k: int| has_byte(after, k, pos) {
            let k = choose|k: int| has_byte(after, k, pos);
            lemma_byte(after, block, max, k, pos);
            if k == n {
                lemma_hole(extents, block, max, n, pos);
            } else {
                let x = if k < n {
                    k
                } else {
                    k - 1
                };
                assert(has_byte(extents, x, pos));
                lemma_byte(extents, block, max, x, pos);
                assert(after[k].end() <= after[n].offset || after[n].end() <= after[k].offset) by {
                    if k < n {
                        assert(after[k].offset < after[n].offset);
                    } else {
                        assert(after[n].offset < after[k].offset);
                    }
                }
            }
        } else {
            assert(!has_byte(after, n, pos));
            assert forall|k: int| !has_byte(extents, k, pos) by {
                if has_byte(extents, k, pos) {
                    let x = if k < n {
                        k
                    } else {
                        k + 1
                    };
                    assert(has_byte(after, x, pos));
                }
            }
        }
    }
    assert(contents(after) =~= whole);
}

/// The sum of two multiples of `block` lies below `x` rounded down, if it lies below `x`.
proof fn lemma_multiple_below(a: int, b: int, x: int, block: int)
    requires
        0 < block,
        a % block == 0,
        b % block == 0,
        a + b <= x,
    ensures
        a + b <= x - x % block,
{
    assert(a == block * (a / block) && b == block * (b / block) && x - x % block == block * (x
        / block)) by (nonlinear_arith)
        requires
            0 < block,
            a % block == 0,
            b % block == 0,
    ;
    assert(0 <= x % block < block) by (nonlinear_arith)
        requires
            0 < block,
    ;
    let q = a / block + b / block;
    assert(block * q == a + b) by (nonlinear_arith)
        requires
            q == a / block + b / block,
            a == block * (a / block),
            b == block * (b / block),
    ;
    assert(q <= x / block) by (nonlinear_arith)
        requires
            0 < block,
            block * q <= x,
            x - x % block == block * (x / block),
            0 <= x % block < block,
    ;
    assert(block * q <= block * (x / block)) by (nonlinear_arith)
        requires
            0 < block,
            q <= x / block,
    ;
}

/// Bytes may be written in pieces: it makes no difference.
pub proof fn law_write_in_pieces(bytes: Seq<u8>, a: Seq<u8>, b: Seq<u8>, offset: int)
    requires
        0 <= offset,
    ensures
        overwrite(overwrite(bytes, a, offset), b, offset + a.len()) == overwrite(
            bytes,
            a + b,
            offset,
        ),
{
    assert(overwrite(overwrite(bytes, a, offset), b, offset + a.len()) =~= overwrite(
        bytes,
        a + b,
        offset,
    ));
}

/// What was written is what is read.
pub proof fn law_read_gives_what_was_written(bytes: Seq<u8>, data: Seq<u8>, offset: int)
    requires
        0 <= offset,
    ensures
        overwrite(bytes, data, offset).subrange(offset, offset + data.len()) == data,
{
    assert(overwrite(bytes, data, offset).subrange(offset, offset + data.len()) =~= data);
}

/// A write changes nothing elsewhere, never makes a file shorter, and leaves zeroes where it made
/// the file longer.
pub proof fn law_write_changes_nothing_else(bytes: Seq<u8>, data: Seq<u8>, offset: int, pos: int)
    requires
        0 <= offset,
        0 <= pos,
        pos < offset || offset + data.len() <= pos,
    ensures
        bytes.len() <= overwrite(bytes, data, offset).len(),
        pos < bytes.len() ==> overwrite(bytes, data, offset)[pos] == bytes[pos],
        bytes.len() <= pos < offset ==> overwrite(bytes, data, offset)[pos] == 0,
{
}

/// The order of writes makes no difference where they do not overlap.
pub proof fn law_separate_writes_commute(
    bytes: Seq<u8>,
    a: Seq<u8>,
    at: int,
    b: Seq<u8>,
    other: int,
)
    requires
        0 <= at,
        at + a.len() <= other,
    ensures
        overwrite(overwrite(bytes, a, at), b, other) == overwrite(
            overwrite(bytes, b, other),
            a,
            at,
        ),
{
    assert(overwrite(overwrite(bytes, a, at), b, other) =~= overwrite(
        overwrite(bytes, b, other),
        a,
        at,
    ));
}

/// Every byte after a write is told by those before it and the data: the data where it was
/// written, what was there elsewhere, and zero where nothing was. The file ends where it ended, or
/// where the data ends if that is later.
pub proof fn law_every_byte_after_a_write(bytes: Seq<u8>, data: Seq<u8>, offset: int)
    requires
        0 <= offset,
    ensures
        ({
            let after = overwrite(bytes, data, offset);
            let end = offset + data.len();
            &&& after.len() == if bytes.len() < end {
                end
            } else {
                bytes.len() as int
            }
            &&& forall|i: int| 0 <= i < data.len() ==> #[trigger] after[offset + i] == data[i]
            &&& forall|pos: int|
                0 <= pos < bytes.len() && !(offset <= pos < end) ==> #[trigger] after[pos]
                    == bytes[pos]
            &&& forall|pos: int| bytes.len() <= pos < offset ==> #[trigger] after[pos] == 0
        }),
{
}

} // verus!
