//! The table of inodes.

use vstd::arithmetic::power2::is_pow2;
use vstd::prelude::*;

use crate::errno::{
    EBADF, EEXIST, EIO, EISDIR, ENOENT, ENOTDIR, ENOTEMPTY, S_IFDIR, S_IFREG,
};
use crate::sys::ROOT_ID;
use crate::tmpfs::block_file::{
    law_every_byte_after_a_write, law_read_gives_what_was_written, overwrite, BlockFile,
};
use crate::tmpfs::dir::{
    inode_of, is_at, law_added_name_is_found, law_adding_changes_one_name,
    law_name_stands_for_one_inode, law_removed_name_is_gone, law_removing_changes_one_name,
    law_removing_undoes_adding, lemma_name_added, lemma_name_removed, sorted, with_name,
    without_name, Dir,
};
use crate::util::{lemma_u64_as_i64, wrap_i64, Duration, Stat};

verus! {

/// What a file or a directory holds.
#[derive(Debug)]
pub enum FsContent {
    Dir(Dir),
    File(BlockFile),
}

/// A file or a directory.
#[derive(Debug)]
pub struct FsEntry {
    pub inode: u64,

    /// The directory in which it was created.
    pub parent: u64,

    /// How many references the kernel holds.
    pub lookups: usize,

    /// How many names there are for it; the root directory counts as having one.
    pub links: usize,

    pub stat: Stat,
    pub content: FsContent,
}

/// A file system.
#[derive(Debug)]
pub struct Fs {
    /// The files and directories by their inode.
    pub entries: Vec<Option<FsEntry>>,

    /// Inodes that were used and no longer are. The last is the first to be used again.
    pub free_inodes: Vec<u64>,
}

/// What a file or a directory holds: bytes, or names with their inodes.
#[verifier::ext_equal]
pub enum ContentView {
    Dir(Seq<(Seq<u8>, u64)>),
    File(Seq<u8>),
}

/// A file or a directory.
#[verifier::ext_equal]
pub struct EntryView {
    pub parent: u64,
    pub lookups: nat,
    pub links: nat,
    pub stat: Stat,
    pub content: ContentView,
}

/// A file system.
#[verifier::ext_equal]
pub struct FsView {
    pub entries: Seq<Option<EntryView>>,
    pub free: Seq<u64>,
}

impl View for FsContent {
    type V = ContentView;

    open spec fn view(&self) -> ContentView {
        match *self {
            FsContent::Dir(dir) => ContentView::Dir(dir@),
            FsContent::File(file) => ContentView::File(file@),
        }
    }
}

impl View for FsEntry {
    type V = EntryView;

    open spec fn view(&self) -> EntryView {
        EntryView {
            parent: self.parent,
            lookups: self.lookups as nat,
            links: self.links as nat,
            stat: self.stat,
            content: self.content@,
        }
    }
}

/// The view of a place in the table.
pub open spec fn slot_view(slot: Option<FsEntry>) -> Option<EntryView> {
    match slot {
        Some(entry) => Some(entry@),
        None => None,
    }
}

impl View for Fs {
    type V = FsView;

    open spec fn view(&self) -> FsView {
        FsView {
            entries: self.entries@.map_values(|slot: Option<FsEntry>| slot_view(slot)),
            free: self.free_inodes@,
        }
    }
}

impl ContentView {
    /// The names in a directory; a file has none.
    pub open spec fn names(self) -> Seq<(Seq<u8>, u64)> {
        match self {
            ContentView::Dir(files) => files,
            ContentView::File(_) => Seq::empty(),
        }
    }
}

/// The inodes that names stand for.
pub open spec fn targets(files: Seq<(Seq<u8>, u64)>) -> Seq<u64> {
    files.map_values(|file: (Seq<u8>, u64)| file.1)
}

/// How many names there are in all directories.
pub open spec fn names_total(entries: Seq<Option<EntryView>>) -> nat
    decreases entries.len(),
{
    if entries.len() == 0 {
        0
    } else {
        names_total(entries.drop_last()) + match entries.last() {
            Some(entry) => entry.content.names().len(),
            None => 0,
        }
    }
}

impl FsView {
    /// Whether there is a file or a directory with this inode.
    pub open spec fn live(self, i: int) -> bool {
        0 <= i < self.entries.len() && self.entries[i] is Some
    }

    /// The file or directory with this inode.
    pub open spec fn entry(self, i: int) -> EntryView {
        self.entries[i]->0
    }

    /// With another entry in the table.
    pub open spec fn put(self, i: int, entry: EntryView) -> FsView {
        FsView { entries: self.entries.update(i, Some(entry)), ..self }
    }

    /// Without an entry in the table.
    pub open spec fn without(self, i: int) -> FsView {
        FsView { entries: self.entries.update(i, None), ..self }
    }

    /// Whether a directory has a name at place `k`.
    pub open spec fn is_name(self, d: int, k: int) -> bool {
        self.live(d) && 0 <= k < self.entry(d).content.names().len()
    }

    /// The inode that a name in a directory stands for.
    pub open spec fn target(self, d: int, k: int) -> u64 {
        self.entry(d).content.names()[k].1
    }

    /// Whether there is a file or a directory with this inode which has a name.
    pub open spec fn linked(self, i: int) -> bool {
        self.live(i) && i != ROOT_ID && self.entry(i).links == 1
    }

    /// Whether a name in a directory stands for this inode.
    pub open spec fn named(self, i: int) -> bool {
        exists|d: int, k: int| #[trigger] self.is_name(d, k) && self.target(d, k) == i
    }

    /// Whether the table is consistent, apart from names that were taken out of a directory,
    /// of which the inodes are `pending`, and inodes that will be free, but are `held` until
    /// then.
    pub open spec fn consistent(self, pending: Seq<u64>, held: Set<int>) -> bool {
        // the root is always there
        &&& 2 <= self.entries.len() <= usize::MAX
        &&& self.entries[0] is None
        &&& self.live(ROOT_ID as int)
        &&& self.entry(ROOT_ID as int).links == 1
        &&& self.entry(ROOT_ID as int).content is Dir
        // what is in the table has a name or is referred to
        &&& forall|i: int|
            #[trigger] self.live(i) ==> self.entry(i).links > 0 || self.entry(i).lookups > 0
        &&& forall|i: int| #[trigger] self.live(i) ==> sorted(self.entry(i).content.names())
        // every name stands for something, and has it for itself
        &&& forall|d: int, k: int| #[trigger]
            self.is_name(d, k) ==> self.linked(self.target(d, k) as int)
        &&& forall|d: int, k: int, e: int, l: int| #[trigger]
            self.is_name(d, k) && #[trigger] self.is_name(e, l) && self.target(d, k)
                == self.target(e, l) ==> d == e && k == l
        // every link is a name
        &&& forall|i: int| #[trigger]
            self.live(i) && i != ROOT_ID && self.entry(i).links > 0 ==> self.linked(i) && (
            self.named(i) || pending.contains(i as u64))
        &&& forall|p: int| 0 <= p < pending.len() ==> self.linked((#[trigger] pending[p]) as int)
        &&& pending.no_duplicates()
        &&& forall|p: int, d: int, k: int|
            0 <= p < pending.len() && #[trigger] self.is_name(d, k) ==> self.target(d, k)
                != #[trigger] pending[p]
        // inodes that are free or will be
        &&& forall|k: int|
            0 <= k < self.free.len() ==> 2 <= (#[trigger] self.free[k]) < self.entries.len()
                && self.entries[self.free[k] as int] is None && !held.contains(
                self.free[k] as int,
            )
        &&& self.free.no_duplicates()
        &&& forall|i: int| #[trigger]
            held.contains(i) ==> 2 <= i < self.entries.len() && self.entries[i] is None
        &&& forall|i: int|
            2 <= i < self.entries.len() && (#[trigger] self.entries[i]) is None ==> held.contains(i)
                || self.free.contains(i as u64)
    }

    /// Whether the table is consistent.
    pub open spec fn wf(self) -> bool {
        self.consistent(Seq::empty(), Set::empty())
    }
}

/// What is left when an entry was taken out of the table of which the names were `files`: those
/// lose their links, and the inode is free. No more than `depth` directories are in each other.
pub open spec fn cleared(v: FsView, i: u64, files: Seq<(Seq<u8>, u64)>, depth: nat) -> FsView
    decreases depth, 0nat,
{
    let w = if depth == 0 {
        v
    } else {
        unlinked(v, files, (depth - 1) as nat)
    };
    FsView { free: w.free.push(i), ..w }
}

/// What is left when names are gone: what they stood for loses its link.
pub open spec fn unlinked(v: FsView, files: Seq<(Seq<u8>, u64)>, depth: nat) -> FsView
    decreases depth, 2 + files.len(),
{
    if files.len() == 0 {
        v
    } else {
        unlinked(link_dropped(v, files[0].1, depth), files.drop_first(), depth)
    }
}

/// What is left when something loses a link: it goes where the kernel does not refer to it.
pub open spec fn link_dropped(v: FsView, i: u64, depth: nat) -> FsView
    decreases depth, 1nat,
{
    let entry = v.entry(i as int);
    if entry.lookups > 0 {
        v.put(i as int, EntryView { links: (entry.links - 1) as nat, ..entry })
    } else {
        cleared(v.without(i as int), i, entry.content.names(), depth)
    }
}

/// Changing one entry changes the number of names by as much as that entry's.
proof fn lemma_names_total(entries: Seq<Option<EntryView>>, i: int, slot: Option<EntryView>)
    requires
        0 <= i < entries.len(),
    ensures
        ({
            let count = |slot: Option<EntryView>|
                match slot {
                    Some(entry) => entry.content.names().len(),
                    None => 0,
                };
            names_total(entries.update(i, slot)) + count(entries[i]) == names_total(entries)
                + count(slot)
        }),
    decreases entries.len(),
{
    let after = entries.update(i, slot);
    if i < entries.len() - 1 {
        lemma_names_total(entries.drop_last(), i, slot);
        assert(after.drop_last() == entries.drop_last().update(i, slot));
    } else {
        assert(after.drop_last() == entries.drop_last());
    }
}

/// A name that is gone, of something that the kernel still refers to.
proof fn lemma_child_kept(v: FsView, pending: Seq<u64>, held: Set<int>)
    requires
        v.consistent(pending, held),
        pending.len() > 0,
        v.entry(pending[0] as int).lookups > 0,
    ensures
        ({
            let i = pending[0] as int;
            v.put(i, EntryView { links: 0, ..v.entry(i) }).consistent(pending.drop_first(), held)
        }),
{
    let i = pending[0] as int;
    assert(v.linked(pending[0] as int));
    let w = v.put(i, EntryView { links: 0, ..v.entry(i) });
    let rest = pending.drop_first();
    assert forall|j: int| #[trigger] w.live(j) implies v.live(j) && (j != i ==> w.entry(j)
        == v.entry(j)) by {}
    assert forall|d: int, k: int| #[trigger] w.is_name(d, k) implies v.is_name(d, k) && w.target(
        d,
        k,
    ) == v.target(d, k) && w.linked(w.target(d, k) as int) by {
        assert(v.is_name(d, k));
        assert(v.target(d, k) != pending[0]);
    }
    assert forall|p: int| 0 <= p < rest.len() implies w.linked((#[trigger] rest[p]) as int) by {
        assert(rest[p] == pending[p + 1]);
        assert(v.linked(pending[p + 1] as int));
    }
    assert forall|p: int, d: int, k: int|
        0 <= p < rest.len() && #[trigger] w.is_name(d, k) implies w.target(d, k)
        != #[trigger] rest[p] by {
        assert(rest[p] == pending[p + 1]);
        assert(v.is_name(d, k));
    }
    assert forall|j: int| #[trigger]
        w.live(j) && j != ROOT_ID && w.entry(j).links > 0 implies w.linked(j) && (w.named(j)
        || rest.contains(j as u64)) by {
        assert(v.live(j) && v.linked(j));
        if v.named(j) {
            let (d, k) = choose|d: int, k: int| #[trigger] v.is_name(d, k) && v.target(d, k) == j;
            assert(w.is_name(d, k) && w.target(d, k) == j);
        } else {
            let p = choose|p: int| 0 <= p < pending.len() && pending[p] == j as u64;
            assert(rest[p - 1] == j);
        }
    }
}

/// A name that is gone, of something that the kernel does not refer to: it is taken out of the
/// table, and its own names are gone then.
proof fn lemma_child_taken(v: FsView, pending: Seq<u64>, held: Set<int>)
    requires
        v.consistent(pending, held),
        pending.len() > 0,
    ensures
        ({
            let i = pending[0] as int;
            v.without(i).consistent(
                targets(v.entry(i).content.names()) + pending.drop_first(),
                held.insert(i),
            )
        }),
{
    let i = pending[0] as int;
    assert(v.linked(pending[0] as int));
    let w = v.without(i);
    let files = v.entry(i).content.names();
    let rest = targets(files) + pending.drop_first();
    assert(v.live(i));
    assert forall|j: int| #[trigger] w.live(j) implies v.live(j) && j != i && w.entry(j) == v.entry(
        j,
    ) by {}
    assert forall|d: int, k: int| #[trigger] w.is_name(d, k) implies v.is_name(d, k) && w.target(
        d,
        k,
    ) == v.target(d, k) && w.linked(w.target(d, k) as int) by {
        assert(v.is_name(d, k));
        assert(v.target(d, k) != pending[0]);
    }
    assert forall|p: int| 0 <= p < rest.len() implies w.linked((#[trigger] rest[p]) as int) by {
        if p < files.len() {
            assert(v.is_name(i, p));
            assert(v.target(i, p) != pending[0]);
        } else {
            assert(rest[p] == pending[p - files.len() + 1]);
        }
    }
    assert forall|p: int, q: int| 0 <= p < q < rest.len() implies rest[p] != rest[q] by {
        if q < files.len() {
            assert(v.is_name(i, p) && v.is_name(i, q));
        } else if p < files.len() {
            assert(v.is_name(i, p));
            assert(rest[q] == pending[q - files.len() + 1]);
        } else {
            assert(rest[p] == pending[p - files.len() + 1]);
            assert(rest[q] == pending[q - files.len() + 1]);
        }
    }
    assert forall|p: int, d: int, k: int|
        0 <= p < rest.len() && #[trigger] w.is_name(d, k) implies w.target(d, k)
        != #[trigger] rest[p] by {
        assert(v.is_name(d, k));
        if p < files.len() {
            assert(v.is_name(i, p));
        } else {
            assert(rest[p] == pending[p - files.len() + 1]);
        }
    }
    assert forall|k: int| 0 <= k < w.free.len() implies !held.insert(i).contains(
        (#[trigger] w.free[k]) as int,
    ) by {}
    assert forall|j: int| #[trigger]
        w.live(j) && j != ROOT_ID && w.entry(j).links > 0 implies w.linked(j) && (w.named(j)
        || rest.contains(j as u64)) by {
        assert(v.live(j) && v.linked(j));
        if v.named(j) {
            let (d, k) = choose|d: int, k: int| #[trigger] v.is_name(d, k) && v.target(d, k) == j;
            if d == i {
                assert(rest[k] == j);
            } else {
                assert(w.is_name(d, k) && w.target(d, k) == j);
            }
        } else {
            let p = choose|p: int| 0 <= p < pending.len() && pending[p] == j as u64;
            assert(rest[files.len() + p - 1] == j);
        }
    }
    assert forall|j: int|
        2 <= j < w.entries.len() && (#[trigger] w.entries[j]) is None implies held.insert(
        i,
    ).contains(j) || w.free.contains(j as u64) by {
        if j != i {
            assert(v.entries[j] is None);
        }
    }
}

/// An inode that was held becomes free.
proof fn lemma_freed(v: FsView, pending: Seq<u64>, held: Set<int>, i: u64)
    requires
        v.consistent(pending, held),
        held.contains(i as int),
    ensures
        (FsView { free: v.free.push(i), ..v }).consistent(pending, held.remove(i as int)),
{
    let w = FsView { free: v.free.push(i), ..v };
    assert forall|j: int| #[trigger] w.live(j) implies v.live(j) by {}
    assert forall|d: int, k: int| #[trigger] w.is_name(d, k) implies v.is_name(d, k) && w.target(
        d,
        k,
    ) == v.target(d, k) && w.linked(w.target(d, k) as int) by {
        assert(v.is_name(d, k));
    }
    assert forall|p: int| 0 <= p < pending.len() implies w.linked(
        (#[trigger] pending[p]) as int,
    ) by {
        assert(v.linked(pending[p] as int));
    }
    assert forall|k: int| 0 <= k < v.free.len() implies v.free[k] != i by {
        assert(!held.contains(v.free[k] as int));
    }
    assert forall|j: int| #[trigger]
        w.live(j) && j != ROOT_ID && w.entry(j).links > 0 implies w.linked(j) && (w.named(j)
        || pending.contains(j as u64)) by {
        assert(v.live(j) && v.linked(j));
        if v.named(j) {
            let (d, k) = choose|d: int, k: int| #[trigger] v.is_name(d, k) && v.target(d, k) == j;
            assert(w.is_name(d, k) && w.target(d, k) == j);
        }
    }
    assert forall|j: int|
        2 <= j < w.entries.len() && (#[trigger] w.entries[j]) is None implies held.remove(
        i as int,
    ).contains(j) || w.free.contains(j as u64) by {
        assert(v.entries[j] is None);
        if j == i {
            assert(w.free[v.free.len() as int] == j);
        } else if !held.contains(j) {
            let k = choose|k: int| 0 <= k < v.free.len() && v.free[k] == j as u64;
            assert(w.free[k] == j as u64);
        }
    }
}

impl Fs {
    /// Whether entries know their inode, and files are well-formed.
    pub open spec fn entries_wf(self) -> bool {
        forall|i: int|
            0 <= i < self.entries@.len() ==> match #[trigger] self.entries@[i] {
                Some(entry) => entry.inode == i && (entry.content matches FsContent::File(file)
                    ==> file.wf()),
                None => true,
            }
    }

    /// Whether the table is consistent.
    pub open spec fn wf(self) -> bool {
        self.entries_wf() && self@.wf()
    }

    /// An entry with these contents was taken out of the table: what was in it loses its link,
    /// and goes too where the kernel does not refer to it. Then the inode is free.
    fn clear(
        &mut self,
        inode: u64,
        content: FsContent,
        Ghost(pending): Ghost<Seq<u64>>,
        Ghost(held): Ghost<Set<int>>,
        Ghost(depth): Ghost<nat>,
    )
        requires
            old(self).entries_wf(),
            old(self)@.consistent(targets(content@.names()) + pending, held.insert(inode as int)),
            !held.contains(inode as int),
            names_total(old(self)@.entries) + content@.names().len() <= depth,
        ensures
            final(self).entries_wf(),
            final(self)@ == cleared(old(self)@, inode, content@.names(), depth),
            final(self)@.consistent(pending, held),
            names_total(final(self)@.entries) <= names_total(old(self)@.entries),
        decreases depth, 0nat,
    {
        let ghost names = content@.names();
        let ghost before = self@;
        if let FsContent::Dir(dir) = content {
            let files = dir.files;
            let mut k: usize = 0;
            assert(names.skip(0) == names);
            while k < files.len()
                invariant
                    k <= files@.len(),
                    files@.len() == names.len(),
                    forall|j: int|
                        0 <= j < names.len() ==> (#[trigger] names[j]).1 == files@[j].inode,
                    self.entries_wf(),
                    self@.consistent(
                        targets(names.skip(k as int)) + pending,
                        held.insert(inode as int),
                    ),
                    names_total(self@.entries) <= names_total(before.entries),
                    names_total(before.entries) + names.len() <= depth,
                    if depth == 0 {
                        self@ == before
                    } else {
                        unlinked(before, names, (depth - 1) as nat) == unlinked(
                            self@,
                            names.skip(k as int),
                            (depth - 1) as nat,
                        )
                    },
                decreases files@.len() - k,
            {
                let child = files[k].inode;
                let ghost v = self@;
                let ghost rest = names.skip(k as int);
                let ghost waiting = targets(rest) + pending;
                proof {
                    assert(rest[0] == names[k as int]);
                    assert(waiting[0] == child);
                    assert(v.linked(waiting[0] as int));
                    assert(rest.drop_first() == names.skip(k + 1));
                    assert(waiting.drop_first() == targets(names.skip(k + 1)) + pending);
                }
                self.drop_link(
                    child,
                    Ghost(waiting),
                    Ghost(held.insert(inode as int)),
                    Ghost((depth - 1) as nat),
                );
                k = k + 1;
            }
            assert(names.skip(k as int) =~= Seq::empty());
        }
        let ghost w = self@;
        self.free_inodes.push(inode);
        proof {
            assert(targets(Seq::<(Seq<u8>, u64)>::empty()) + pending =~= pending);
            assert(held.insert(inode as int).remove(inode as int) =~= held);
            lemma_freed(w, pending, held.insert(inode as int), inode);
            assert(self@ =~= FsView { free: w.free.push(inode), ..w });
        }
    }

    /// A name is gone that stood for this inode.
    fn drop_link(
        &mut self,
        inode: u64,
        Ghost(pending): Ghost<Seq<u64>>,
        Ghost(held): Ghost<Set<int>>,
        Ghost(depth): Ghost<nat>,
    )
        requires
            old(self).entries_wf(),
            pending.len() > 0,
            pending[0] == inode,
            old(self)@.consistent(pending, held),
            names_total(old(self)@.entries) <= depth,
        ensures
            final(self).entries_wf(),
            final(self)@ == link_dropped(old(self)@, inode, depth),
            final(self)@.consistent(pending.drop_first(), held),
            names_total(final(self)@.entries) <= names_total(old(self)@.entries),
        decreases depth, 1nat,
    {
        let ghost v = self@;
        let ghost rest = pending.drop_first();
        proof {
            assert(v.linked(pending[0] as int));
            assert(v.live(inode as int));
            assert(inode < self.entries.len());
            assert(v.entries[inode as int] == slot_view(self.entries@[inode as int]));
        }
        let i = inode as usize;
        match self.entries[i].take() {
            Some(mut entry) => {
                proof {
                    assert(v.entry(i as int) == entry@);
                    assert(self@ =~= v.without(i as int));
                }
                if entry.lookups > 0 {
                    entry.links = entry.links - 1;
                    let ghost after = entry@;
                    self.entries.set(i, Some(entry));
                    proof {
                        lemma_child_kept(v, pending, held);
                        assert(self@ =~= v.put(i as int, after));
                        lemma_names_total(v.entries, i as int, Some(after));
                    }
                } else {
                    proof {
                        lemma_child_taken(v, pending, held);
                        lemma_names_total(v.entries, i as int, None);
                    }
                    self.clear(inode, entry.content, Ghost(rest), Ghost(held), Ghost(depth));
                }
            },
            None => {},
        }
    }
}

/// Why something could not be done.
#[derive(Clone, Copy, Debug, PartialEq, Eq, Structural)]
pub enum FsError {
    /// An error number of the operating system.
    Os(i32),

    /// The kernel looked up an inode that it never was told of.
    NeverAdvertised(u64),

    /// The kernel forgot an inode that it never looked up.
    NeverLookedUp,
}

impl FsError {
    /// The error number with which a request is failed because of this error.
    pub open spec fn spec_errno(self) -> i32 {
        match self {
            FsError::Os(errno) => errno,
            _ => EIO,
        }
    }

    /// The error number with which a request is failed because of this error.
    pub fn errno(&self) -> (res: i32)
        ensures
            res == self.spec_errno(),
    {
        match *self {
            FsError::Os(errno) => errno,
            _ => EIO,
        }
    }
}

/// The attributes of a new file or directory: those that are not given are zero, and all times
/// are the current one.
pub open spec fn spec_new_stat(inode: u64, mode: u32, uid: u32, gid: u32, now: Duration) -> Stat {
    Stat {
        st_dev: 0,
        st_ino: inode,
        st_nlink: 0,
        st_mode: mode,
        st_uid: uid,
        st_gid: gid,
        st_rdev: 0,
        st_size: 0,
        st_blksize: 0,
        st_blocks: 0,
        st_atime: wrap_i64(now.secs as int) as i64,
        st_atime_nsec: now.nanos as i64,
        st_mtime: wrap_i64(now.secs as int) as i64,
        st_mtime_nsec: now.nanos as i64,
        st_ctime: wrap_i64(now.secs as int) as i64,
        st_ctime_nsec: now.nanos as i64,
    }
}

/// The attributes of a new file or directory.
pub fn new_stat(inode: u64, mode: u32, uid: u32, gid: u32, now: Duration) -> (res: Stat)
    ensures
        res == spec_new_stat(inode, mode, uid, gid, now),
{
    proof {
        lemma_u64_as_i64(now.secs);
    }
    let secs = #[verifier::truncate] (now.secs as i64);
    let nanos = now.nanos as i64;
    Stat {
        st_dev: 0,
        st_ino: inode,
        st_nlink: 0,
        st_mode: mode,
        st_uid: uid,
        st_gid: gid,
        st_rdev: 0,
        st_size: 0,
        st_blksize: 0,
        st_blocks: 0,
        st_atime: secs,
        st_atime_nsec: nanos,
        st_mtime: secs,
        st_mtime_nsec: nanos,
        st_ctime: secs,
        st_ctime_nsec: nanos,
    }
}

/// The name `.`.
pub open spec fn dot() -> Seq<u8> {
    seq![0x2eu8]
}

/// The name `..`.
pub open spec fn dot_dot() -> Seq<u8> {
    seq![0x2eu8, 0x2eu8]
}

/// A file system with an empty root directory.
pub open spec fn empty_fs(now: Duration) -> FsView {
    FsView {
        entries: seq![
            None,
            Some(
                EntryView {
                    parent: ROOT_ID,
                    lookups: 1,
                    links: 1,
                    stat: spec_new_stat(ROOT_ID, 0o755 | S_IFDIR, 0, 0, now),
                    content: ContentView::Dir(Seq::empty()),
                },
            ),
        ],
        free: Seq::empty(),
    }
}

impl FsView {
    /// Whether an inode can be looked up.
    pub open spec fn look(self, inode: u64) -> Result<(), FsError> {
        if inode >= self.entries.len() {
            Err(FsError::NeverAdvertised(inode))
        } else if self.entries[inode as int] is None {
            Err(FsError::Os(ENOENT))
        } else {
            Ok(())
        }
    }

    /// What a name in a directory stands for. `.` is the directory itself, and `..` the one in
    /// which it was created.
    pub open spec fn look_at(self, inode: u64, name: Seq<u8>) -> Result<u64, FsError> {
        match self.look(inode) {
            Err(err) => Err(err),
            Ok(()) => if name == dot() {
                Ok(inode)
            } else {
                match self.entry(inode as int).content {
                    ContentView::File(_) => Err(FsError::Os(ENOTDIR)),
                    ContentView::Dir(files) => if name == dot_dot() {
                        match self.look(self.entry(inode as int).parent) {
                            Ok(()) => Ok(self.entry(inode as int).parent),
                            Err(err) => Err(err),
                        }
                    } else {
                        match inode_of(files, name) {
                            Some(found) => Ok(found),
                            None => Err(FsError::Os(ENOENT)),
                        }
                    },
                }
            },
        }
    }

    /// The kernel refers to an inode once more. A count that is full stays full.
    pub open spec fn looked_up(self, inode: u64) -> FsView {
        let entry = self.entry(inode as int);
        self.put(
            inode as int,
            EntryView {
                lookups: if entry.lookups < usize::MAX {
                    entry.lookups + 1
                } else {
                    entry.lookups
                },
                ..entry
            },
        )
    }
}

impl Fs {
    /// A file system with an empty root directory.
    pub fn new(now: Duration) -> (res: Fs)
        ensures
            res.wf(),
            res@ == empty_fs(now),
    {
        let mut entries: Vec<Option<FsEntry>> = Vec::new();
        entries.push(None);
        entries.push(
            Some(
                FsEntry {
                    inode: ROOT_ID,
                    parent: ROOT_ID,
                    lookups: 1,
                    links: 1,
                    stat: new_stat(ROOT_ID, 0o755 | S_IFDIR, 0, 0, now),
                    content: FsContent::Dir(Dir::new()),
                },
            ),
        );
        let fs = Fs { entries, free_inodes: Vec::new() };
        proof {
            assert(fs@ =~= empty_fs(now));
        }
        fs
    }

    /// The file or directory with this inode.
    pub fn get(&self, inode: u64) -> (res: Result<&FsEntry, FsError>)
        ensures
            match res {
                Ok(entry) => {
                    &&& self@.look(inode) == Ok::<(), FsError>(())
                    &&& *entry == self.entries@[inode as int]->0
                    &&& entry@ == self@.entry(inode as int)
                },
                Err(err) => self@.look(inode) == Err::<(), FsError>(err),
            },
    {
        if inode >= self.entries.len() as u64 {
            // This inode has never been advertised to the kernel:
            return Err(FsError::NeverAdvertised(inode));
        }
        assert(self@.entries[inode as int] == slot_view(self.entries@[inode as int]));
        match &self.entries[inode as usize] {
            Some(entry) => Ok(entry),
            // This inode has been deleted...
            None => Err(FsError::Os(ENOENT)),
        }
    }

    /// The attributes of a file or directory that is there.
    pub fn stat(&self, inode: u64) -> (res: Stat)
        requires
            self@.live(inode as int),
        ensures
            res == self@.entry(inode as int).stat,
    {
        assert(inode < self.entries.len());
        assert(self@.entries[inode as int] == slot_view(self.entries@[inode as int]));
        self.entries[inode as usize].as_ref().unwrap().stat
    }

    /// The kernel looks up an inode that it knows, and refers to it once more.
    pub fn lookup(&mut self, inode: u64) -> (res: Result<(), FsError>)
        requires
            old(self).wf(),
        ensures
            final(self).wf(),
            res == old(self)@.look(inode),
            final(self)@ == match res {
                Ok(()) => old(self)@.looked_up(inode),
                Err(_) => old(self)@,
            },
    {
        match self.get(inode) {
            Ok(_) => {},
            Err(err) => {
                return Err(err);
            },
        }
        let i = inode as usize;
        let ghost v = self@;
        match self.entries[i].take() {
            Some(mut entry) => {
                if entry.lookups < usize::MAX {
                    entry.lookups = entry.lookups + 1;
                }
                let ghost after = entry@;
                self.entries.set(i, Some(entry));
                proof {
                    assert(self@ =~= v.put(i as int, after));
                    lemma_entry_changed(v, i as int, after);
                }
            },
            None => {},
        }
        Ok(())
    }
}

/// An entry may change as long as its names and links do not, and it is still referred to where
/// it has no name.
pub proof fn lemma_entry_changed(v: FsView, i: int, entry: EntryView)
    requires
        v.wf(),
        v.live(i),
        entry.links == v.entry(i).links,
        entry.links > 0 || entry.lookups > 0,
        entry.content.names() == v.entry(i).content.names(),
        entry.content is Dir == v.entry(i).content is Dir,
    ensures
        v.put(i, entry).wf(),
{
    let w = v.put(i, entry);
    assert forall|j: int| #[trigger] w.live(j) implies v.live(j) by {}
    assert forall|d: int, k: int| #[trigger] w.is_name(d, k) implies v.is_name(d, k) && w.target(
        d,
        k,
    ) == v.target(d, k) && w.linked(w.target(d, k) as int) by {
        assert(v.is_name(d, k));
    }
    assert forall|j: int| #[trigger]
        w.live(j) && j != ROOT_ID && w.entry(j).links > 0 implies w.linked(j) && w.named(j) by {
        assert(v.live(j) && v.linked(j));
        let (d, k) = choose|d: int, k: int| #[trigger] v.is_name(d, k) && v.target(d, k) == j;
        assert(w.is_name(d, k) && w.target(d, k) == j);
    }
    assert forall|j: int|
        2 <= j < w.entries.len() && (#[trigger] w.entries[j]) is None implies w.free.contains(
        j as u64,
    ) by {
        assert(v.entries[j] is None);
    }
}

/// What a name stands for can be looked up.
proof fn lemma_named_is_live(v: FsView, d: int, name: Seq<u8>)
    requires
        v.wf(),
        v.live(d),
        inode_of(v.entry(d).content.names(), name) is Some,
    ensures
        ({
            let files = v.entry(d).content.names();
            let k = choose|k: int| is_at(files, name, k);
            &&& is_at(files, name, k)
            &&& v.is_name(d, k)
            &&& v.target(d, k) == inode_of(files, name)->0
            &&& v.linked(v.target(d, k) as int)
        }),
{
    let files = v.entry(d).content.names();
    let k = choose|k: int| is_at(files, name, k);
    assert(is_at(files, name, k));
    assert(v.is_name(d, k));
}

impl FsView {
    /// The kernel refers to an inode so many times less. Where it no longer refers to it at all,
    /// and there is no name for it, it goes.
    pub open spec fn forgot(self, inode: u64, count: u64) -> FsView {
        let entry = self.entry(inode as int);
        if entry.lookups > count || entry.links > 0 {
            self.put(
                inode as int,
                EntryView {
                    lookups: if entry.lookups > count {
                        (entry.lookups - count) as nat
                    } else {
                        0
                    },
                    ..entry
                },
            )
        } else {
            cleared(
                self.without(inode as int),
                inode,
                entry.content.names(),
                names_total(self.entries),
            )
        }
    }
}

impl Fs {
    /// The kernel looks up a name in a directory, and refers to what it stands for once more.
    pub fn lookup_at(&mut self, inode: u64, name: &[u8]) -> (res: Result<u64, FsError>)
        requires
            old(self).wf(),
        ensures
            final(self).wf(),
            res == old(self)@.look_at(inode, name@),
            res matches Ok(found) ==> old(self)@.live(found as int),
            final(self)@ == match res {
                Ok(found) => old(self)@.looked_up(found),
                Err(_) => old(self)@,
            },
    {
        let node = match self.get(inode) {
            Ok(node) => node,
            Err(err) => {
                return Err(err);
            },
        };
        assert(self@.live(inode as int));
        assert(name@.len() == 1 && name@[0] == 0x2e ==> name@ =~= dot());
        assert(name@.len() == 2 && name@[0] == 0x2e && name@[1] == 0x2e ==> name@ =~= dot_dot());
        let found = if name.len() == 1 && name[0] == 0x2e {
            inode
        } else {
            match &node.content {
                FsContent::Dir(dir) => {
                    if name.len() == 2 && name[0] == 0x2e && name[1] == 0x2e {
                        node.parent
                    } else {
                        match dir.get(name) {
                            Some(found) => {
                                proof {
                                    lemma_named_is_live(self@, inode as int, name@);
                                }
                                found
                            },
                            None => {
                                return Err(FsError::Os(ENOENT));
                            },
                        }
                    }
                },
                FsContent::File(_) => {
                    return Err(FsError::Os(ENOTDIR));
                },
            }
        };
        match self.lookup(found) {
            Ok(()) => Ok(found),
            Err(err) => Err(err),
        }
    }

    /// The kernel refers to an inode so many times less.
    pub fn forget(&mut self, inode: u64, nlookup: u64) -> (res: Result<(), FsError>)
        requires
            old(self).wf(),
        ensures
            final(self).wf(),
            res == (match old(self)@.look(inode) {
                Err(FsError::NeverAdvertised(_)) => Err(FsError::NeverLookedUp),
                looked => looked,
            }),
            final(self)@ == match res {
                Ok(()) => old(self)@.forgot(inode, nlookup),
                Err(_) => old(self)@,
            },
    {
        match self.get(inode) {
            Ok(_) => {},
            Err(FsError::NeverAdvertised(_)) => {
                return Err(FsError::NeverLookedUp);
            },
            Err(err) => {
                return Err(err);
            },
        }
        let i = inode as usize;
        let ghost v = self@;
        match self.entries[i].take() {
            Some(mut entry) => {
                proof {
                    assert(self@ =~= v.without(i as int));
                }
                if entry.lookups as u64 > nlookup || entry.links > 0 {
                    // there are still more lookups present, or hard links
                    entry.lookups = if entry.lookups as u64 > nlookup {
                        entry.lookups - nlookup as usize
                    } else {
                        0
                    };
                    let ghost after = entry@;
                    self.entries.set(i, Some(entry));
                    proof {
                        assert(self@ =~= v.put(i as int, after));
                        lemma_entry_changed(v, i as int, after);
                    }
                } else {
                    // no lookups, no hard links, delete:
                    proof {
                        lemma_entry_taken(v, i as int);
                        lemma_names_total(v.entries, i as int, None);
                        assert(targets(v.entry(i as int).content.names()) + Seq::<u64>::empty()
                            =~= targets(v.entry(i as int).content.names()));
                    }
                    self.clear(
                        inode,
                        entry.content,
                        Ghost(Seq::empty()),
                        Ghost(Set::empty()),
                        Ghost(names_total(v.entries)),
                    );
                }
            },
            None => {},
        }
        Ok(())
    }
}

/// What has no name may be taken out of the table; its own names are gone then.
proof fn lemma_entry_taken(v: FsView, i: int)
    requires
        v.wf(),
        v.live(i),
        v.entry(i).links == 0,
    ensures
        v.without(i).consistent(
            targets(v.entry(i).content.names()),
            Set::<int>::empty().insert(i),
        ),
{
    let w = v.without(i);
    let files = v.entry(i).content.names();
    let pending = targets(files);
    assert forall|j: int| #[trigger] w.live(j) implies v.live(j) && j != i && w.entry(j) == v.entry(
        j,
    ) by {}
    assert forall|d: int, k: int| #[trigger] w.is_name(d, k) implies v.is_name(d, k) && w.target(
        d,
        k,
    ) == v.target(d, k) && w.linked(w.target(d, k) as int) by {
        assert(v.is_name(d, k));
    }
    assert forall|p: int| 0 <= p < pending.len() implies w.linked(
        (#[trigger] pending[p]) as int,
    ) by {
        assert(v.is_name(i, p));
    }
    assert forall|p: int, q: int| 0 <= p < q < pending.len() implies pending[p] != pending[q] by {
        assert(v.is_name(i, p) && v.is_name(i, q));
    }
    assert forall|p: int, d: int, k: int|
        0 <= p < pending.len() && #[trigger] w.is_name(d, k) implies w.target(d, k)
        != #[trigger] pending[p] by {
        assert(v.is_name(d, k) && v.is_name(i, p));
    }
    assert forall|j: int| #[trigger]
        w.live(j) && j != ROOT_ID && w.entry(j).links > 0 implies w.linked(j) && (w.named(j)
        || pending.contains(j as u64)) by {
        assert(v.live(j) && v.linked(j));
        let (d, k) = choose|d: int, k: int| #[trigger] v.is_name(d, k) && v.target(d, k) == j;
        if d == i {
            assert(pending[k] == j);
        } else {
            assert(w.is_name(d, k) && w.target(d, k) == j);
        }
    }
    assert forall|j: int|
        2 <= j < w.entries.len() && (#[trigger] w.entries[j]) is None implies Set::<
        int,
    >::empty().insert(i).contains(j) || w.free.contains(j as u64) by {
        if j != i {
            assert(v.entries[j] is None);
        }
    }
}

impl FsView {
    /// The inode that the next file or directory gets.
    pub open spec fn next_inode(self) -> u64 {
        if self.free.len() > 0 {
            self.free.last()
        } else {
            self.entries.len() as u64
        }
    }

    /// Whether a name can be added to a directory.
    pub open spec fn can_create(self, parent: u64, name: Seq<u8>) -> Result<(), FsError> {
        match self.look(parent) {
            Err(err) => Err(err),
            Ok(()) => match self.entry(parent as int).content {
                ContentView::File(_) => Err(FsError::Os(ENOTDIR)),
                ContentView::Dir(files) => if inode_of(files, name) is Some {
                    Err(FsError::Os(EEXIST))
                } else {
                    Ok(())
                },
            },
        }
    }

    /// With a place in the table for the next inode.
    pub open spec fn with_place(self) -> FsView {
        if self.free.len() > 0 {
            FsView { free: self.free.drop_last(), ..self }
        } else {
            FsView { entries: self.entries.push(None), ..self }
        }
    }

    /// With a new file or directory, to which the kernel refers once and which has one name.
    pub open spec fn created(
        self,
        parent: u64,
        name: Seq<u8>,
        mode: u32,
        content: ContentView,
        now: Duration,
    ) -> FsView {
        let inode = self.next_inode();
        let dir = self.entry(parent as int);
        self.with_place().put(
            inode as int,
            EntryView {
                parent,
                lookups: 1,
                links: 1,
                stat: spec_new_stat(inode, mode, 0, 0, now),
                content,
            },
        ).put(
            parent as int,
            EntryView {
                content: ContentView::Dir(with_name(dir.content.names(), name, inode)),
                ..dir
            },
        )
    }

    /// Whether a name can be removed from a directory, and what it stands for.
    pub open spec fn can_unlink(self, parent: u64, name: Seq<u8>, is_rmdir: bool) -> Result<
        u64,
        FsError,
    > {
        match self.look(parent) {
            Err(err) => Err(err),
            Ok(()) => match self.entry(parent as int).content {
                ContentView::File(_) => Err(FsError::Os(ENOTDIR)),
                ContentView::Dir(files) => match inode_of(files, name) {
                    None => Err(FsError::Os(ENOENT)),
                    Some(inode) => match self.entry(inode as int).content {
                        ContentView::Dir(_) if !is_rmdir => Err(FsError::Os(EISDIR)),
                        ContentView::Dir(files) if files.len() > 0 => Err(FsError::Os(ENOTEMPTY)),
                        ContentView::File(_) if is_rmdir => Err(FsError::Os(ENOTDIR)),
                        _ => Ok(inode),
                    },
                },
            },
        }
    }

    /// Without a name in a directory.
    pub open spec fn without_name(self, parent: u64, name: Seq<u8>) -> FsView {
        let dir = self.entry(parent as int);
        self.put(
            parent as int,
            EntryView {
                content: ContentView::Dir(without_name(dir.content.names(), name)),
                ..dir
            },
        )
    }

    /// A file's bytes; a directory cannot be read or written.
    pub open spec fn bytes(self, inode: u64) -> Result<Seq<u8>, FsError> {
        match self.look(inode) {
            Err(err) => Err(err),
            Ok(()) => match self.entry(inode as int).content {
                ContentView::File(bytes) => Ok(bytes),
                ContentView::Dir(_) => Err(FsError::Os(EBADF)),
            },
        }
    }

    /// With other attributes of a file or directory.
    pub open spec fn with_stat(self, inode: u64, stat: Stat) -> FsView {
        self.put(inode as int, EntryView { stat, ..self.entry(inode as int) })
    }

    /// With bytes written to a file, and the size among its attributes.
    pub open spec fn written(self, inode: u64, data: Seq<u8>, offset: u64) -> FsView {
        let entry = self.entry(inode as int);
        let bytes = overwrite(entry.content->File_0, data, offset as int);
        self.put(
            inode as int,
            EntryView {
                stat: Stat { st_size: wrap_i64(bytes.len() as int) as i64, ..entry.stat },
                content: ContentView::File(bytes),
                ..entry
            },
        )
    }
}

/// Whether what has the next inode was not there before, and is as it is created.
pub open spec fn is_new(
    before: FsView,
    parent: u64,
    after: FsView,
    mode: u32,
    content: ContentView,
    now: Duration,
) -> bool {
    let inode = before.next_inode();
    &&& !before.live(inode as int)
    &&& after.live(inode as int)
    &&& after.entry(inode as int) == EntryView {
        parent,
        lookups: 1,
        links: 1,
        stat: spec_new_stat(inode, mode, 0, 0, now),
        content,
    }
}

impl Fs {
    /// Creates a file or a directory under a name that is not there yet.
    fn do_create(
        &mut self,
        parent: u64,
        name: Vec<u8>,
        mode: u32,
        content: FsContent,
        now: Duration,
    ) -> (res: Result<u64, FsError>)
        requires
            old(self).wf(),
            content@.names().len() == 0,
            content matches FsContent::File(file) ==> file.wf(),
        ensures
            final(self).wf(),
            match old(self)@.can_create(parent, name@) {
                Ok(()) => {
                    &&& res == Ok::<u64, FsError>(old(self)@.next_inode())
                    &&& final(self)@ == old(self)@.created(parent, name@, mode, content@, now)
                    &&& is_new(old(self)@, parent, final(self)@, mode, content@, now)
                },
                Err(err) => res == Err::<u64, FsError>(err) && final(self)@ == old(self)@,
            },
    {
        match self.get(parent) {
            Err(err) => {
                return Err(err);
            },
            Ok(parent_dir) => {
                assert(self@.live(parent as int));
                match &parent_dir.content {
                    FsContent::File(_) => {
                        return Err(FsError::Os(ENOTDIR));
                    },
                    FsContent::Dir(dir) => {
                        if dir.get(name.as_slice()).is_some() {
                            return Err(FsError::Os(EEXIST));
                        }
                    },
                }
            },
        }
        let ghost v = self@;
        let ghost name_view = name@;
        let ghost content_view = content@;
        let inode = match self.free_inodes.pop() {
            Some(inode) => {
                proof {
                    assert(v.free[v.free.len() - 1] == inode);
                    assert(self@ =~= v.with_place());
                }
                inode
            },
            None => {
                let inode = self.entries.len() as u64;
                self.entries.push(None);
                proof {
                    assert(self@ =~= v.with_place());
                }
                inode
            },
        };
        let entry = FsEntry {
            inode,
            parent,
            lookups: 1,
            links: 1,
            stat: new_stat(inode, mode, 0, 0, now),
            content,
        };
        let ghost entry_view = entry@;
        assert(inode < self.entries.len());
        // Insert into the file system:
        self.entries.set(inode as usize, Some(entry));
        let ghost w = self@;
        proof {
            assert(w =~= v.with_place().put(inode as int, entry_view));
            assert(w.entry(parent as int) == v.entry(parent as int));
        }
        // Hardlink the inode into the directory
        assert(w.entries[parent as int] == slot_view(self.entries@[parent as int]));
        match self.entries[parent as usize].take() {
            Some(mut parent_dir) => {
                match parent_dir.content {
                    FsContent::Dir(mut dir) => {
                        dir.insert(name, inode);
                        parent_dir.content = FsContent::Dir(dir);
                    },
                    FsContent::File(_) => {},
                }
                self.entries.set(parent as usize, Some(parent_dir));
            },
            None => {},
        }
        proof {
            assert(self@ =~= v.created(parent, name_view, mode, content_view, now));
            lemma_created(v, parent, name_view, mode, content_view, now);
        }
        Ok(inode)
    }

    /// Creates a directory. The kernel refers to it once.
    pub fn mkdir(&mut self, parent: u64, name: Vec<u8>, mode: u32, now: Duration) -> (res: Result<
        u64,
        FsError,
    >)
        requires
            old(self).wf(),
        ensures
            final(self).wf(),
            match old(self)@.can_create(parent, name@) {
                Ok(()) => {
                    &&& res == Ok::<u64, FsError>(old(self)@.next_inode())
                    &&& final(self)@ == old(self)@.created(
                        parent,
                        name@,
                        mode | S_IFDIR,
                        ContentView::Dir(Seq::empty()),
                        now,
                    )
                    &&& is_new(
                        old(self)@,
                        parent,
                        final(self)@,
                        mode | S_IFDIR,
                        ContentView::Dir(Seq::empty()),
                        now,
                    )
                },
                Err(err) => res == Err::<u64, FsError>(err) && final(self)@ == old(self)@,
            },
    {
        self.do_create(parent, name, mode | S_IFDIR, FsContent::Dir(Dir::new()), now)
    }

    /// Creates a file. The kernel refers to it once.
    pub fn create(&mut self, parent: u64, name: Vec<u8>, mode: u32, now: Duration) -> (res: Result<
        u64,
        FsError,
    >)
        requires
            old(self).wf(),
        ensures
            final(self).wf(),
            match old(self)@.can_create(parent, name@) {
                Ok(()) => {
                    &&& res == Ok::<u64, FsError>(old(self)@.next_inode())
                    &&& final(self)@ == old(self)@.created(
                        parent,
                        name@,
                        mode | S_IFREG,
                        ContentView::File(Seq::empty()),
                        now,
                    )
                    &&& is_new(
                        old(self)@,
                        parent,
                        final(self)@,
                        mode | S_IFREG,
                        ContentView::File(Seq::empty()),
                        now,
                    )
                },
                Err(err) => res == Err::<u64, FsError>(err) && final(self)@ == old(self)@,
            },
    {
        proof {
            lemma_file_block_size();
        }
        self.do_create(
            parent,
            name,
            mode | S_IFREG,
            FsContent::File(BlockFile::new(FILE_BLOCK_SIZE)),
            now,
        )
    }

    /// Removes the name of a file, or that of an empty directory.
    pub fn unlink(&mut self, parent: u64, name: &[u8], is_rmdir: bool) -> (res: Result<
        (),
        FsError,
    >)
        requires
            old(self).wf(),
        ensures
            final(self).wf(),
            match old(self)@.can_unlink(parent, name@, is_rmdir) {
                Ok(inode) => {
                    &&& res == Ok::<(), FsError>(())
                    &&& final(self)@ == link_dropped(
                        old(self)@.without_name(parent, name@),
                        inode,
                        names_total(old(self)@.entries),
                    )
                },
                Err(err) => res == Err::<(), FsError>(err) && final(self)@ == old(self)@,
            },
    {
        let ghost v = self@;
        let inode = match self.get(parent) {
            Err(err) => {
                return Err(err);
            },
            Ok(parent_dir) => {
                assert(self@.live(parent as int));
                match &parent_dir.content {
                    FsContent::File(_) => {
                        return Err(FsError::Os(ENOTDIR));
                    },
                    FsContent::Dir(dir) => match dir.get(name) {
                        None => {
                            return Err(FsError::Os(ENOENT));
                        },
                        Some(inode) => inode,
                    },
                }
            },
        };
        proof {
            lemma_named_is_live(v, parent as int, name@);
        }
        match self.get(inode) {
            Err(err) => {
                return Err(err);
            },
            Ok(entry) => match &entry.content {
                FsContent::Dir(dir) => {
                    if !is_rmdir {
                        return Err(FsError::Os(EISDIR));
                    }
                    if !dir.is_empty() {
                        return Err(FsError::Os(ENOTEMPTY));
                    }
                },
                FsContent::File(_) => {
                    if is_rmdir {
                        return Err(FsError::Os(ENOTDIR));
                    }
                },
            },
        }
        match self.entries[parent as usize].take() {
            Some(mut parent_dir) => {
                match parent_dir.content {
                    FsContent::Dir(mut dir) => {
                        dir.remove(name);
                        parent_dir.content = FsContent::Dir(dir);
                    },
                    FsContent::File(_) => {},
                }
                self.entries.set(parent as usize, Some(parent_dir));
            },
            None => {},
        }
        proof {
            assert(self@ =~= v.without_name(parent, name@));
            lemma_name_taken(v, parent, name@);
            lemma_names_total(v.entries, parent as int, self@.entries[parent as int]);
        }
        let ghost pending = seq![inode];
        self.drop_link(
            inode,
            Ghost(pending),
            Ghost(Set::empty()),
            Ghost(names_total(v.entries)),
        );
        assert(pending.drop_first() =~= Seq::<u64>::empty());
        Ok(())
    }

    /// Writes to a file.
    pub fn write(&mut self, inode: u64, data: &[u8], offset: u64) -> (res: Result<(), FsError>)
        requires
            old(self).wf(),
            old(self)@.bytes(inode) is Ok ==> offset + data@.len() <= u64::MAX,
        ensures
            final(self).wf(),
            match old(self)@.bytes(inode) {
                Ok(_) => {
                    &&& res == Ok::<(), FsError>(())
                    &&& final(self)@ == old(self)@.written(inode, data@, offset)
                },
                Err(err) => res == Err::<(), FsError>(err) && final(self)@ == old(self)@,
            },
    {
        match self.get(inode) {
            Err(err) => {
                return Err(err);
            },
            Ok(node) => match &node.content {
                FsContent::Dir(_) => {
                    return Err(FsError::Os(EBADF));
                },
                FsContent::File(_) => {},
            },
        }
        let i = inode as usize;
        let ghost v = self@;
        assert(v.live(i as int));
        match self.entries[i].take() {
            Some(mut node) => {
                match node.content {
                    FsContent::File(mut file) => {
                        file.write(data, offset);
                        let size = file.size();
                        proof {
                            lemma_u64_as_i64(size);
                        }
                        node.stat.st_size = #[verifier::truncate] (size as i64);
                        node.content = FsContent::File(file);
                    },
                    FsContent::Dir(_) => {},
                }
                let ghost after = node@;
                self.entries.set(i, Some(node));
                proof {
                    assert(self@ =~= v.put(i as int, after));
                    lemma_entry_changed(v, i as int, after);
                }
            },
            None => {},
        }
        Ok(())
    }

    /// Sets the attributes of a file or directory.
    pub fn set_stat(&mut self, inode: u64, stat: Stat) -> (res: Result<(), FsError>)
        requires
            old(self).wf(),
        ensures
            final(self).wf(),
            res == old(self)@.look(inode),
            final(self)@ == match res {
                Ok(()) => old(self)@.with_stat(inode, stat),
                Err(_) => old(self)@,
            },
    {
        match self.get(inode) {
            Ok(_) => {},
            Err(err) => {
                return Err(err);
            },
        }
        let i = inode as usize;
        let ghost v = self@;
        assert(v.live(i as int));
        match self.entries[i].take() {
            Some(mut node) => {
                node.stat = stat;
                let ghost after = node@;
                self.entries.set(i, Some(node));
                proof {
                    assert(self@ =~= v.put(i as int, after));
                    lemma_entry_changed(v, i as int, after);
                }
            },
            None => {},
        }
        Ok(())
    }

    /// Reads from a file: `size` bytes, or as many as there are.
    pub fn read(&self, inode: u64, size: usize, offset: u64) -> (res: Result<Vec<u8>, FsError>)
        requires
            self.wf(),
            self@.bytes(inode) matches Ok(bytes) ==> offset <= bytes.len(),
        ensures
            match self@.bytes(inode) {
                Ok(bytes) => {
                    &&& res matches Ok(data)
                    &&& data@ == bytes.subrange(
                        offset as int,
                        if offset + size <= bytes.len() {
                            offset + size
                        } else {
                            bytes.len() as int
                        },
                    )
                },
                Err(err) => res == Err::<Vec<u8>, FsError>(err),
            },
    {
        match self.get(inode) {
            Err(err) => Err(err),
            Ok(node) => match &node.content {
                FsContent::Dir(_) => Err(FsError::Os(EBADF)),
                FsContent::File(file) => Ok(file.read(size, offset)),
            },
        }
    }
}

/// The block size of files.
pub const FILE_BLOCK_SIZE: usize = 4096;

/// The block size of files is a power of two.
proof fn lemma_file_block_size()
    ensures
        is_pow2(FILE_BLOCK_SIZE as int),
{
    reveal_with_fuel(is_pow2, 13);
}

/// With a new file or directory, the table is consistent.
pub proof fn lemma_created(
    v: FsView,
    parent: u64,
    name: Seq<u8>,
    mode: u32,
    content: ContentView,
    now: Duration,
)
    requires
        v.wf(),
        v.can_create(parent, name) == Ok::<(), FsError>(()),
        v.with_place().entries.len() <= usize::MAX,
        content.names().len() == 0,
    ensures
        v.created(parent, name, mode, content, now).wf(),
{
    let inode = v.next_inode();
    let i = inode as int;
    let files = v.entry(parent as int).content.names();
    let w = v.created(parent, name, mode, content, now);
    assert(v.live(parent as int));
    let n = lemma_name_added(files, name, inode);
    if v.free.len() > 0 {
        assert(v.free[v.free.len() - 1] == inode);
    }
    assert(!v.live(i));
    assert forall|j: int| #[trigger] w.live(j) implies j == i || v.live(j) by {}
    assert forall|d: int, k: int| #[trigger] w.is_name(d, k) implies {
        ||| d == parent && k == n && w.target(d, k) == inode
        ||| d == parent && k < n && v.is_name(d, k) && w.target(d, k) == v.target(d, k)
        ||| d == parent && k > n && v.is_name(d, k - 1) && w.target(d, k) == v.target(d, k - 1)
        ||| d != parent && v.is_name(d, k) && w.target(d, k) == v.target(d, k)
    } by {
        if d == parent {
            if k < n {
                assert(v.is_name(d, k));
            } else if k > n {
                assert(v.is_name(d, k - 1));
            }
        } else if d != i {
            assert(v.is_name(d, k));
        }
    }
    assert forall|d: int, k: int| #[trigger] v.is_name(d, k) implies {
        let l = if d == parent && k >= n {
            k + 1
        } else {
            k
        };
        w.is_name(d, l) && w.target(d, l) == v.target(d, k)
    } by {}
    assert(w.is_name(parent as int, n) && w.target(parent as int, n) == inode);
    assert forall|j: int| #[trigger]
        w.live(j) && j != ROOT_ID && w.entry(j).links > 0 implies w.linked(j) && w.named(j) by {
        if j != i {
            assert(v.live(j) && v.linked(j));
            let (d, k) = choose|d: int, k: int| #[trigger] v.is_name(d, k) && v.target(d, k) == j;
            assert(v.is_name(d, k));
        }
    }
    assert forall|k: int| 0 <= k < w.free.len() implies w.free[k] == v.free[k] && w.free[k]
        != inode by {
        assert(v.free.no_duplicates());
    }
    assert forall|j: int|
        2 <= j < w.entries.len() && (#[trigger] w.entries[j]) is None implies w.free.contains(
        j as u64,
    ) by {
        assert(v.entries[j] is None);
        let k = choose|k: int| 0 <= k < v.free.len() && v.free[k] == j as u64;
        assert(w.free[k] == j as u64);
    }
}

/// A name that is taken out of a directory is pending.
proof fn lemma_name_taken(v: FsView, parent: u64, name: Seq<u8>)
    requires
        v.wf(),
        v.live(parent as int),
        v.entry(parent as int).content is Dir,
        inode_of(v.entry(parent as int).content.names(), name) is Some,
    ensures
        v.without_name(parent, name).consistent(
            seq![inode_of(v.entry(parent as int).content.names(), name)->0],
            Set::empty(),
        ),
        names_total(v.without_name(parent, name).entries) <= names_total(v.entries),
{
    let files = v.entry(parent as int).content.names();
    let n = lemma_name_removed(files, name);
    let inode = files[n].1;
    let w = v.without_name(parent, name);
    let pending = seq![inode];
    lemma_names_total(v.entries, parent as int, w.entries[parent as int]);
    assert(v.is_name(parent as int, n) && v.target(parent as int, n) == inode);
    assert(v.linked(inode as int));
    assert forall|j: int| #[trigger] w.live(j) implies v.live(j) by {}
    assert forall|d: int, k: int| #[trigger] w.is_name(d, k) implies {
        let l = if d == parent && k >= n {
            k + 1
        } else {
            k
        };
        v.is_name(d, l) && w.target(d, k) == v.target(d, l)
    } by {}
    assert forall|d: int, k: int| #[trigger] v.is_name(d, k) && !(d == parent && k == n) implies {
        let l = if d == parent && k > n {
            k - 1
        } else {
            k
        };
        w.is_name(d, l) && w.target(d, l) == v.target(d, k)
    } by {}
    assert forall|j: int| #[trigger]
        w.live(j) && j != ROOT_ID && w.entry(j).links > 0 implies w.linked(j) && (w.named(j)
        || pending.contains(j as u64)) by {
        assert(v.live(j) && v.linked(j));
        let (d, k) = choose|d: int, k: int| #[trigger] v.is_name(d, k) && v.target(d, k) == j;
        if d == parent && k == n {
            assert(pending[0] == j);
        } else {
            assert(v.is_name(d, k));
        }
    }
    assert forall|j: int|
        2 <= j < w.entries.len() && (#[trigger] w.entries[j]) is None implies w.free.contains(
        j as u64,
    ) by {
        assert(v.entries[j] is None);
    }
}

/// What was created is found under its name, with one reference and one link; every other name in
/// every directory stands for what it stood for.
pub proof fn law_created_is_found(
    v: FsView,
    parent: u64,
    name: Seq<u8>,
    mode: u32,
    content: ContentView,
    now: Duration,
    dir: u64,
    other: Seq<u8>,
)
    requires
        v.wf(),
        v.can_create(parent, name) == Ok::<(), FsError>(()),
        v.entries.len() < usize::MAX,
        name != dot(),
        name != dot_dot(),
    ensures
        ({
            let w = v.created(parent, name, mode, content, now);
            let inode = v.next_inode();
            &&& !v.live(inode as int)
            &&& w.look_at(parent, name) == Ok::<u64, FsError>(inode)
            &&& w.entry(inode as int).lookups == 1
            &&& w.entry(inode as int).links == 1
            &&& w.entry(inode as int).content == content
            &&& v.live(dir as int) && !(dir == parent && other == name) && other != dot_dot()
                ==> w.look_at(dir, other) == v.look_at(dir, other)
        }),
{
    let w = v.created(parent, name, mode, content, now);
    let inode = v.next_inode();
    let files = v.entry(parent as int).content.names();
    assert(v.live(parent as int));
    if v.free.len() > 0 {
        assert(v.free[v.free.len() - 1] == inode);
    }
    law_added_name_is_found(files, name, inode, name);
    law_added_name_is_found(files, name, inode, other);
}

/// A name that was removed stands for nothing. What it stood for goes, and its inode is the next
/// to be used, unless the kernel still refers to it: then it stays as usable as it was, only
/// without a link.
pub proof fn law_unlinked_is_gone(v: FsView, parent: u64, name: Seq<u8>, is_rmdir: bool)
    requires
        v.wf(),
        v.can_unlink(parent, name, is_rmdir) is Ok,
        name != dot(),
        name != dot_dot(),
    ensures
        ({
            let inode = v.can_unlink(parent, name, is_rmdir)->Ok_0;
            let entry = v.entry(inode as int);
            let w = link_dropped(v.without_name(parent, name), inode, names_total(v.entries));
            &&& w.look_at(parent, name) == Err::<u64, FsError>(FsError::Os(ENOENT))
            &&& if entry.lookups == 0 {
                !w.live(inode as int) && w.next_inode() == inode
            } else {
                w.live(inode as int) && w.entry(inode as int) == (EntryView { links: 0, ..entry })
            }
        }),
{
    let inode = v.can_unlink(parent, name, is_rmdir)->Ok_0;
    let depth = names_total(v.entries);
    let files = v.entry(parent as int).content.names();
    let u = v.without_name(parent, name);
    assert(v.live(parent as int));
    lemma_named_is_live(v, parent as int, name);
    law_removed_name_is_gone(files, name, name);
    // the directory itself has a name in it, so it is not what was removed
    assert(inode != parent) by {
        assert(files.len() > 0);
    }
    assert(unlinked(u.without(inode as int), Seq::empty(), (depth - 1) as nat) == u.without(
        inode as int,
    ));
    assert(u.entry(inode as int) == v.entry(inode as int));
    assert(u.entry(inode as int).content.names() =~= Seq::empty());
}

/// What has a name stays, however often it is forgotten; only the number of references changes.
pub proof fn law_named_is_never_forgotten(v: FsView, inode: u64, count: u64)
    requires
        v.wf(),
        v.live(inode as int),
        v.entry(inode as int).links > 0,
    ensures
        v.forgot(inode, count).live(inode as int),
        v.forgot(inode, count).entry(inode as int).content == v.entry(inode as int).content,
        v.forgot(inode, count).free == v.free,
{
}

/// What has no name goes when the kernel has forgotten all its references, and not before. Its
/// inode is the next to be used then.
pub proof fn law_unnamed_goes_when_forgotten(v: FsView, inode: u64, count: u64)
    requires
        v.wf(),
        v.live(inode as int),
        v.entry(inode as int).links == 0,
    ensures
        v.forgot(inode, count).live(inode as int) <==> count < v.entry(inode as int).lookups,
        count >= v.entry(inode as int).lookups ==> v.forgot(inode, count).next_inode() == inode,
{
    let entry = v.entry(inode as int);
    let files = entry.content.names();
    lemma_entry_taken(v, inode as int);
    lemma_names_total(v.entries, inode as int, None);
    if count >= entry.lookups {
        let held = Set::<int>::empty().insert(inode as int);
        let depth = names_total(v.entries);
        let u = v.without(inode as int);
        assert(targets(files) + Seq::<u64>::empty() =~= targets(files));
        assert(held.contains(inode as int));
        if depth > 0 {
            lemma_unlinked(u, files, Seq::empty(), held, (depth - 1) as nat);
        }
    }
}

/// Names that are gone leave a consistent table; inodes that are held stay so.
proof fn lemma_unlinked(
    v: FsView,
    files: Seq<(Seq<u8>, u64)>,
    pending: Seq<u64>,
    held: Set<int>,
    depth: nat,
)
    requires
        v.consistent(targets(files) + pending, held),
        files.len() > 0 ==> names_total(v.entries) <= depth,
    ensures
        unlinked(v, files, depth).consistent(pending, held),
        names_total(unlinked(v, files, depth).entries) <= names_total(v.entries),
    decreases depth, 2 + files.len(),
{
    let waiting = targets(files) + pending;
    if files.len() == 0 {
        assert(waiting =~= pending);
    } else {
        let i = files[0].1;
        let rest = targets(files.drop_first()) + pending;
        assert(waiting[0] == i);
        assert(waiting.drop_first() =~= rest);
        assert(v.linked(waiting[0] as int));
        let entry = v.entry(i as int);
        let w = link_dropped(v, i, depth);
        if entry.lookups > 0 {
            lemma_child_kept(v, waiting, held);
            lemma_names_total(v.entries, i as int, w.entries[i as int]);
        } else {
            lemma_child_taken(v, waiting, held);
            lemma_names_total(v.entries, i as int, None);
            let u = v.without(i as int);
            let names = entry.content.names();
            if depth > 0 {
                lemma_unlinked(u, names, rest, held.insert(i as int), (depth - 1) as nat);
            } else {
                assert(targets(names) + rest =~= rest);
            }
            let x = if depth == 0 {
                u
            } else {
                unlinked(u, names, (depth - 1) as nat)
            };
            lemma_freed(x, rest, held.insert(i as int), i);
            assert(held.insert(i as int).remove(i as int) =~= held);
        }
        lemma_unlinked(w, files.drop_first(), pending, held, depth);
    }
}

/// Looking something up and forgetting it once leaves no trace, unless the count was full.
pub proof fn law_forgetting_undoes_lookup(v: FsView, inode: u64)
    requires
        v.wf(),
        v.live(inode as int),
        v.entry(inode as int).lookups < usize::MAX,
    ensures
        v.looked_up(inode).forgot(inode, 1) == v,
{
    assert(v.looked_up(inode).forgot(inode, 1) =~= v);
}

/// What was written to a file is what is read from it.
pub proof fn law_written_is_read(v: FsView, inode: u64, data: Seq<u8>, offset: u64)
    requires
        v.wf(),
        v.bytes(inode) is Ok,
        offset + data.len() <= u64::MAX,
    ensures
        ({
            let w = v.written(inode, data, offset);
            &&& w.bytes(inode) matches Ok(bytes)
            &&& bytes.subrange(offset as int, offset + data.len()) == data
            &&& w.entry(inode as int).stat.st_size == wrap_i64(bytes.len() as int)
        }),
{
    law_read_gives_what_was_written(v.bytes(inode)->Ok_0, data, offset as int);
}

/// A write to one file changes no other file and no directory.
pub proof fn law_write_touches_one_file(
    v: FsView,
    inode: u64,
    data: Seq<u8>,
    offset: u64,
    other: int,
)
    requires
        v.bytes(inode) is Ok,
        0 <= other < v.entries.len(),
        other != inode,
    ensures
        v.written(inode, data, offset).entries[other] == v.entries[other],
        v.written(inode, data, offset).free == v.free,
{
}

/// A file that is created, removed and forgotten leaves nothing but its inode, which is the next
/// to be used.
pub proof fn law_removed_file_leaves_nothing(
    v: FsView,
    parent: u64,
    name: Seq<u8>,
    mode: u32,
    now: Duration,
)
    requires
        v.wf(),
        v.can_create(parent, name) == Ok::<(), FsError>(()),
        v.entries.len() < usize::MAX,
    ensures
        ({
            let inode = v.next_inode();
            let w = v.created(parent, name, mode, ContentView::File(Seq::empty()), now);
            let u = link_dropped(w.without_name(parent, name), inode, names_total(w.entries));
            &&& w.can_unlink(parent, name, false) == Ok::<u64, FsError>(inode)
            &&& u.forgot(inode, 1) == (FsView {
                free: v.with_place().free.push(inode),
                ..v.with_place()
            })
        }),
{
    let inode = v.next_inode();
    let w = v.created(parent, name, mode, ContentView::File(Seq::empty()), now);
    let u = link_dropped(w.without_name(parent, name), inode, names_total(w.entries));
    let files = v.entry(parent as int).content.names();
    assert(v.live(parent as int));
    if v.free.len() > 0 {
        assert(v.free[v.free.len() - 1] == inode);
    }
    law_added_name_is_found(files, name, inode, name);
    law_removing_undoes_adding(files, name, inode);
    let depth = names_total(u.entries);
    assert(unlinked(u.without(inode as int), Seq::empty(), (depth - 1) as nat) == u.without(
        inode as int,
    ));
    assert(u.forgot(inode, 1).entries =~= v.with_place().entries);
}

/// An inode can be looked up if something has it. Otherwise the error tells whether it ever was in
/// use.
pub proof fn law_what_is_there_can_be_looked_up(v: FsView, inode: u64)
    ensures
        inode < v.entries.len() && v.entries[inode as int] is Some ==> v.look(inode) == Ok::<
            (),
            FsError,
        >(()),
        inode < v.entries.len() && v.entries[inode as int] is None ==> v.look(inode) == Err::<
            (),
            FsError,
        >(FsError::Os(ENOENT)),
        inode >= v.entries.len() ==> v.look(inode) == Err::<(), FsError>(
            FsError::NeverAdvertised(inode),
        ),
{
}

/// A name in a directory leads to the inode that is listed with it. `.` leads to where one is, and
/// `..` to the directory in which this one was created. What is not listed is not there, and a
/// file has no names in it.
pub proof fn law_names_lead_to_inodes(v: FsView, inode: u64, name: Seq<u8>, found: u64)
    requires
        v.wf(),
        inode < v.entries.len(),
        v.entries[inode as int] is Some,
    ensures
        name == seq![0x2eu8] ==> v.look_at(inode, name) == Ok::<u64, FsError>(inode),
        name != seq![0x2eu8] ==> match v.entries[inode as int]->0.content {
            ContentView::File(_) => v.look_at(inode, name) == Err::<u64, FsError>(
                FsError::Os(ENOTDIR),
            ),
            ContentView::Dir(files) => if name == seq![0x2eu8, 0x2eu8] {
                let parent = v.entries[inode as int]->0.parent;
                if parent < v.entries.len() && v.entries[parent as int] is Some {
                    v.look_at(inode, name) == Ok::<u64, FsError>(parent)
                } else {
                    v.look_at(inode, name) is Err
                }
            } else {
                &&& files.contains((name, found)) <==> v.look_at(inode, name) == Ok::<u64, FsError>(
                    found,
                )
                &&& (forall|i: int| 0 <= i < files.len() ==> (#[trigger] files[i]).0 != name)
                    <==> v.look_at(inode, name) == Err::<u64, FsError>(FsError::Os(ENOENT))
            },
        },
{
    assert(v.live(inode as int));
    if let ContentView::Dir(files) = v.entries[inode as int]->0.content {
        assert(sorted(v.entry(inode as int).content.names()));
        law_name_stands_for_one_inode(files, name, found);
    }
}

/// Looking up in what is not there fails as looking that up does.
pub proof fn law_nothing_is_found_in_nothing(v: FsView, inode: u64, name: Seq<u8>)
    ensures
        inode >= v.entries.len() ==> v.look_at(inode, name) == Err::<u64, FsError>(
            FsError::NeverAdvertised(inode),
        ),
        inode < v.entries.len() && v.entries[inode as int] is None ==> v.look_at(inode, name)
            == Err::<u64, FsError>(FsError::Os(ENOENT)),
{
}

/// A lookup counts one reference more, and changes nothing else.
pub proof fn law_lookup_counts_one(v: FsView, inode: u64)
    requires
        inode < v.entries.len(),
        v.entries[inode as int] is Some,
        v.entries[inode as int]->0.lookups < usize::MAX,
    ensures
        ({
            let w = v.looked_up(inode);
            let before = v.entries[inode as int]->0;
            &&& w.free == v.free
            &&& w.entries.len() == v.entries.len()
            &&& forall|j: int|
                0 <= j < v.entries.len() && j != inode ==> w.entries[j] == v.entries[j]
            &&& w.entries[inode as int] matches Some(entry)
            &&& entry.lookups == before.lookups + 1
            &&& entry.links == before.links
            &&& entry.parent == before.parent
            &&& entry.stat == before.stat
            &&& entry.content == before.content
        }),
{
}

/// Forgetting takes off as many references as it says, or all where there are no more. Nothing
/// else changes as long as a reference or a name is left.
pub proof fn law_forgetting_counts(v: FsView, inode: u64, count: u64)
    requires
        v.wf(),
        inode < v.entries.len(),
        v.entries[inode as int] is Some,
        v.entries[inode as int]->0.lookups > count || v.entries[inode as int]->0.links > 0,
    ensures
        ({
            let w = v.forgot(inode, count);
            let before = v.entries[inode as int]->0;
            &&& w.free == v.free
            &&& w.entries.len() == v.entries.len()
            &&& forall|j: int|
                0 <= j < v.entries.len() && j != inode ==> w.entries[j] == v.entries[j]
            &&& w.entries[inode as int] matches Some(entry)
            &&& before.lookups > count ==> entry.lookups + count == before.lookups
            &&& before.lookups <= count ==> entry.lookups == 0
            &&& entry.links == before.links
            &&& entry.parent == before.parent
            &&& entry.stat == before.stat
            &&& entry.content == before.content
        }),
{
}

/// What goes when the last reference to something without a name is forgotten: the thing itself,
/// and what was in it and has no reference of its own; of a directory that goes, everything that
/// stays has no link any more. Whatever stays is as it was but for that. Each inode that goes can
/// be used again.
pub proof fn law_only_what_is_inside_goes(v: FsView, inode: u64, count: u64)
    requires
        v.wf(),
        inode < v.entries.len(),
        v.entries[inode as int] is Some,
        v.entries[inode as int]->0.lookups <= count,
        v.entries[inode as int]->0.links == 0,
    ensures
        ({
            let w = v.forgot(inode, count);
            &&& w.wf()
            &&& w.entries.len() == v.entries.len()
            &&& w.entries[inode as int] is None
            // what stays is as it was, but for its link
            &&& forall|j: int|
                0 <= j < v.entries.len() && (#[trigger] w.entries[j]) is Some ==> {
                    &&& v.entries[j] is Some
                    &&& w.entries[j]->0.parent == v.entries[j]->0.parent
                    &&& w.entries[j]->0.lookups == v.entries[j]->0.lookups
                    &&& w.entries[j]->0.stat == v.entries[j]->0.stat
                    &&& w.entries[j]->0.content == v.entries[j]->0.content
                }
            // nothing goes that is referred to
            &&& forall|j: int|
                0 <= j < v.entries.len() && j != inode && (#[trigger] v.entries[j]) is Some
                    && v.entries[j]->0.lookups > 0 ==> w.entries[j] is Some
            // a name in what stays stands for what it stood for, which keeps its link
            &&& forall|d: int, k: int| #[trigger]
                v.is_name(d, k) && w.entries[d] is Some ==> {
                    &&& w.entries[v.target(d, k) as int] is Some
                    &&& w.entries[v.target(d, k) as int]->0.links == 1
                }
            // a name in what goes takes the link away, and what has neither link nor reference
            &&& forall|d: int, k: int| #[trigger]
                v.is_name(d, k) && w.entries[d] is None ==> {
                    let child = v.target(d, k) as int;
                    if v.entries[child]->0.lookups > 0 {
                        w.entries[child] is Some && w.entries[child]->0.links == 0
                    } else {
                        w.entries[child] is None
                    }
                }
            &&& forall|j: int|
                0 <= j < v.entries.len() && v.entries[j] is Some && (
                #[trigger] w.entries[j]) is None ==> w.free.contains(j as u64)
        }),
{
    let i = inode as int;
    let w = v.forgot(inode, count);
    let entry = v.entry(i);
    let files = entry.content.names();
    let held = Set::<int>::empty().insert(i);
    let depth = names_total(v.entries);
    let u = v.without(i);
    assert(v.live(i));
    lemma_entry_taken(v, i);
    lemma_names_total(v.entries, i, None);
    assert(targets(files) + Seq::<u64>::empty() =~= targets(files));
    let x = if depth == 0 {
        u
    } else {
        unlinked(u, files, (depth - 1) as nat)
    };
    if depth > 0 {
        lemma_unlinked(u, files, Seq::empty(), held, (depth - 1) as nat);
        lemma_unlinked_keeps(u, files, Seq::empty(), held, (depth - 1) as nat);
    }
    lemma_freed(x, Seq::empty(), held, inode);
    assert(held.remove(i) =~= Set::<int>::empty());
    assert(held.contains(i));
    assert(w == FsView { free: x.free.push(inode), ..x });
    assert forall|j: int|
        0 <= j < v.entries.len() && (#[trigger] w.entries[j]) is Some implies v.entries[j] is Some
        && w.entry(j) == (EntryView { links: w.entry(j).links, ..v.entry(j) }) by {
        assert(x.entries[j] is Some);
        assert(u.entries[j] is Some);
    }
    assert forall|j: int|
        0 <= j < v.entries.len() && j != inode && (#[trigger] v.entries[j]) is Some
            && v.entries[j]->0.lookups > 0 implies w.entries[j] is Some by {
        assert(u.entries[j] is Some);
    }
    assert forall|j: int|
        0 <= j < v.entries.len() && v.entries[j] is Some && (
        #[trigger] w.entries[j]) is None implies w.free.contains(j as u64) by {
        assert(v.live(j) && j >= 2) by {
            if j == ROOT_ID {
                assert(w.live(ROOT_ID as int));
            }
        }
    }
    assert forall|d: int, k: int| #[trigger] v.is_name(d, k) && w.entries[d] is Some implies {
        &&& w.entries[v.target(d, k) as int] is Some
        &&& w.entries[v.target(d, k) as int]->0.links == 1
    } by {
        assert(w.is_name(d, k) && w.target(d, k) == v.target(d, k));
    }
    assert forall|d: int, k: int| #[trigger] v.is_name(d, k) && w.entries[d] is None implies {
        let child = v.target(d, k) as int;
        if v.entries[child]->0.lookups > 0 {
            w.entries[child] is Some && w.entries[child]->0.links == 0
        } else {
            w.entries[child] is None
        }
    } by {
        let child = v.target(d, k) as int;
        assert(v.linked(child));
        assert(v.entries[child] is Some && child != inode);
        assert(w.entries[child] is Some ==> w.live(child));
        if w.live(child) && w.entry(child).links > 0 {
            assert(child != ROOT_ID);
            assert(w.named(child));
            let (e, l) = choose|e: int, l: int| #[trigger]
                w.is_name(e, l) && w.target(e, l) == child;
            assert(v.is_name(e, l) && v.target(e, l) == child);
            assert(e == d);
        }
    }
}

/// Names that are gone take nothing with them that is referred to, and leave what stays as it was
/// but for its link.
proof fn lemma_unlinked_keeps(
    v: FsView,
    files: Seq<(Seq<u8>, u64)>,
    pending: Seq<u64>,
    held: Set<int>,
    depth: nat,
)
    requires
        v.consistent(targets(files) + pending, held),
        files.len() > 0 ==> names_total(v.entries) <= depth,
    ensures
        ({
            let w = unlinked(v, files, depth);
            &&& w.entries.len() == v.entries.len()
            &&& forall|j: int|
                0 <= j < v.entries.len() && (#[trigger] w.entries[j]) is Some ==> {
                    &&& v.entries[j] is Some
                    &&& w.entry(j) == (EntryView { links: w.entry(j).links, ..v.entry(j) })
                }
            &&& forall|j: int|
                0 <= j < v.entries.len() && (#[trigger] v.entries[j]) is Some && v.entry(j).lookups
                    > 0 ==> w.entries[j] is Some
        }),
    decreases depth, 2 + files.len(),
{
    let waiting = targets(files) + pending;
    if files.len() > 0 {
        let i = files[0].1;
        let rest = targets(files.drop_first()) + pending;
        assert(waiting[0] == i);
        assert(waiting.drop_first() =~= rest);
        assert(v.linked(waiting[0] as int));
        let entry = v.entry(i as int);
        let w = link_dropped(v, i, depth);
        if entry.lookups > 0 {
            lemma_child_kept(v, waiting, held);
            lemma_names_total(v.entries, i as int, w.entries[i as int]);
        } else {
            lemma_child_taken(v, waiting, held);
            lemma_names_total(v.entries, i as int, None);
            let u = v.without(i as int);
            let names = entry.content.names();
            if depth > 0 {
                lemma_unlinked(u, names, rest, held.insert(i as int), (depth - 1) as nat);
                lemma_unlinked_keeps(u, names, rest, held.insert(i as int), (depth - 1) as nat);
            } else {
                assert(targets(names) + rest =~= rest);
            }
            let x = if depth == 0 {
                u
            } else {
                unlinked(u, names, (depth - 1) as nat)
            };
            lemma_freed(x, rest, held.insert(i as int), i);
            assert(held.insert(i as int).remove(i as int) =~= held);
        }
        assert forall|j: int|
            0 <= j < v.entries.len() && (#[trigger] w.entries[j]) is Some implies {
            &&& v.entries[j] is Some
            &&& w.entry(j) == (EntryView { links: w.entry(j).links, ..v.entry(j) })
        } by {}
        assert forall|j: int|
            0 <= j < v.entries.len() && (#[trigger] v.entries[j]) is Some && v.entry(j).lookups
                > 0 implies w.entries[j] is Some && w.entry(j).lookups > 0 by {
            if entry.lookups == 0 {
                assert(j != i);
                assert(v.without(i as int).entries[j] == v.entries[j]);
            }
        }
        lemma_unlinked_keeps(w, files.drop_first(), pending, held, depth);
        let end = unlinked(w, files.drop_first(), depth);
        assert(unlinked(v, files, depth) == end);
        assert forall|j: int|
            0 <= j < v.entries.len() && (#[trigger] end.entries[j]) is Some implies {
            &&& v.entries[j] is Some
            &&& end.entry(j) == (EntryView { links: end.entry(j).links, ..v.entry(j) })
        } by {
            assert(w.entries[j] is Some);
        }
        assert forall|j: int|
            0 <= j < v.entries.len() && (#[trigger] v.entries[j]) is Some && v.entry(j).lookups
                > 0 implies end.entries[j] is Some by {
            assert(w.entries[j] is Some);
        }
    }
}

/// Something can be created exactly in a directory, and under a name that is not there yet.
pub proof fn law_when_something_can_be_created(v: FsView, parent: u64, name: Seq<u8>)
    requires
        v.wf(),
        parent < v.entries.len(),
        v.entries[parent as int] is Some,
    ensures
        match v.entries[parent as int]->0.content {
            ContentView::File(_) => v.can_create(parent, name) == Err::<(), FsError>(
                FsError::Os(ENOTDIR),
            ),
            ContentView::Dir(files) => {
                let free = forall|i: int|
                    0 <= i < files.len() ==> (#[trigger] files[i]).0 != name;
                &&& free ==> v.can_create(parent, name) == Ok::<(), FsError>(())
                &&& !free ==> v.can_create(parent, name) == Err::<(), FsError>(FsError::Os(EEXIST))
            },
        },
{
    assert(v.live(parent as int));
    if let ContentView::Dir(files) = v.entries[parent as int]->0.content {
        assert(sorted(v.entry(parent as int).content.names()));
        law_name_stands_for_one_inode(files, name, 0);
    }
}

/// Nothing can be created in what is not there, and nothing removed from it.
pub proof fn law_nothing_is_changed_in_nothing(
    v: FsView,
    parent: u64,
    name: Seq<u8>,
    is_rmdir: bool,
)
    ensures
        parent >= v.entries.len() ==> {
            &&& v.can_create(parent, name) == Err::<(), FsError>(FsError::NeverAdvertised(parent))
            &&& v.can_unlink(parent, name, is_rmdir) == Err::<u64, FsError>(
                FsError::NeverAdvertised(parent),
            )
        },
        parent < v.entries.len() && v.entries[parent as int] is None ==> {
            &&& v.can_create(parent, name) == Err::<(), FsError>(FsError::Os(ENOENT))
            &&& v.can_unlink(parent, name, is_rmdir) == Err::<u64, FsError>(FsError::Os(ENOENT))
        },
{
}

/// What is created gets an inode that nothing has: the one that became free last, or else the one
/// after all that were ever used. It has one reference and one name, which is added to its
/// directory. Nothing else changes.
pub proof fn law_what_is_created(
    v: FsView,
    parent: u64,
    name: Seq<u8>,
    mode: u32,
    content: ContentView,
    now: Duration,
    file: (Seq<u8>, u64),
)
    requires
        v.wf(),
        v.can_create(parent, name) is Ok,
        v.entries.len() < usize::MAX,
    ensures
        ({
            let w = v.created(parent, name, mode, content, now);
            let inode = v.next_inode();
            let dir = v.entries[parent as int]->0;
            &&& parent < v.entries.len()
            &&& v.entries[parent as int] is Some
            &&& dir.content is Dir
            // the inode
            &&& v.free.len() > 0 ==> {
                &&& inode == v.free.last()
                &&& v.entries[inode as int] is None
                &&& w.free == v.free.drop_last()
                &&& w.entries.len() == v.entries.len()
            }
            &&& v.free.len() == 0 ==> {
                &&& inode == v.entries.len()
                &&& w.free == v.free
                &&& w.entries.len() == v.entries.len() + 1
            }
            // what has it
            &&& w.entries[inode as int] matches Some(new)
            &&& new.parent == parent
            &&& new.lookups == 1
            &&& new.links == 1
            &&& new.content == content
            &&& new.stat.st_ino == inode
            &&& new.stat.st_mode == mode
            &&& new.stat.st_uid == 0
            &&& new.stat.st_gid == 0
            &&& new.stat.st_size == 0
            &&& new.stat == spec_new_stat(inode, mode, 0, 0, now)
            // its name
            &&& w.entries[parent as int] matches Some(after)
            &&& after.parent == dir.parent
            &&& after.lookups == dir.lookups
            &&& after.links == dir.links
            &&& after.stat == dir.stat
            &&& after.content matches ContentView::Dir(files)
            &&& files.contains(file) <==> dir.content->Dir_0.contains(file) || file == (name, inode)
            &&& files.len() == dir.content->Dir_0.len() + 1
            // the rest
            &&& forall|j: int|
                0 <= j < v.entries.len() && j != inode && j != parent ==> w.entries[j]
                    == v.entries[j]
        }),
{
    let inode = v.next_inode();
    assert(v.live(parent as int));
    let files = v.entry(parent as int).content.names();
    if v.free.len() > 0 {
        assert(v.free[v.free.len() - 1] == inode);
    }
    law_name_stands_for_one_inode(files, name, inode);
    law_adding_changes_one_name(files, name, inode, file);
}

/// What is new belongs to the superuser, is empty, and has the current time for all its times.
pub proof fn law_attributes_of_what_is_new(inode: u64, mode: u32, uid: u32, gid: u32, now: Duration)
    ensures
        ({
            let stat = spec_new_stat(inode, mode, uid, gid, now);
            &&& stat.st_ino == inode
            &&& stat.st_mode == mode
            &&& stat.st_uid == uid
            &&& stat.st_gid == gid
            &&& stat.st_dev == 0
            &&& stat.st_nlink == 0
            &&& stat.st_rdev == 0
            &&& stat.st_size == 0
            &&& stat.st_blksize == 0
            &&& stat.st_blocks == 0
            &&& now.secs <= i64::MAX ==> {
                &&& stat.st_atime == now.secs
                &&& stat.st_mtime == now.secs
                &&& stat.st_ctime == now.secs
            }
            &&& stat.st_atime_nsec == now.nanos
            &&& stat.st_mtime_nsec == now.nanos
            &&& stat.st_ctime_nsec == now.nanos
        }),
{
}

/// In the beginning there is an empty directory with the root's inode, to which one reference
/// counts, and which is its own parent.
pub proof fn law_the_beginning(now: Duration)
    ensures
        ({
            let v = empty_fs(now);
            &&& v.wf()
            &&& v.free.len() == 0
            &&& v.entries.len() == 2
            &&& v.entries[0] is None
            &&& v.entries[1] matches Some(root)
            &&& root.parent == 1
            &&& root.lookups == 1
            &&& root.links == 1
            &&& root.content matches ContentView::Dir(files)
            &&& files.len() == 0
            &&& root.stat.st_ino == 1
            &&& root.stat.st_mode == 0o40755
            &&& root.stat.st_uid == 0
            &&& root.stat.st_gid == 0
        }),
{
    assert(0o755u32 | 0o40000u32 == 0o40755u32) by (bit_vector);
}

/// A name can be removed exactly if it is there and stands for what is to be removed: a directory
/// that is empty, whatever else is beside it, or a file.
pub proof fn law_when_a_name_can_be_removed(
    v: FsView,
    parent: u64,
    name: Seq<u8>,
    is_rmdir: bool,
    inode: u64,
)
    requires
        v.wf(),
        parent < v.entries.len(),
        v.entries[parent as int] is Some,
    ensures
        match v.entries[parent as int]->0.content {
            ContentView::File(_) => v.can_unlink(parent, name, is_rmdir) == Err::<u64, FsError>(
                FsError::Os(ENOTDIR),
            ),
            ContentView::Dir(files) => {
                &&& (forall|i: int| 0 <= i < files.len() ==> (#[trigger] files[i]).0 != name) <==> (
                v.can_unlink(parent, name, is_rmdir) == Err::<u64, FsError>(FsError::Os(ENOENT)))
                &&& files.contains((name, inode)) ==> {
                    &&& v.entries[inode as int] is Some
                    &&& v.can_unlink(parent, name, is_rmdir) == match (
                        v.entries[inode as int]->0.content,
                        is_rmdir,
                    ) {
                        (ContentView::File(_), false) => Ok::<u64, FsError>(inode),
                        (ContentView::File(_), true) => Err(FsError::Os(ENOTDIR)),
                        (ContentView::Dir(_), false) => Err(FsError::Os(EISDIR)),
                        (ContentView::Dir(inside), true) => if inside.len() == 0 {
                            Ok(inode)
                        } else {
                            Err(FsError::Os(ENOTEMPTY))
                        },
                    }
                }
            },
        },
{
    assert(v.live(parent as int));
    if let ContentView::Dir(files) = v.entries[parent as int]->0.content {
        assert(sorted(v.entry(parent as int).content.names()));
        law_name_stands_for_one_inode(files, name, inode);
        if inode_of(files, name) is Some {
            lemma_named_is_live(v, parent as int, name);
            let found = inode_of(files, name)->0;
            law_name_stands_for_one_inode(files, name, found);
            let k = choose|k: int| 0 <= k < files.len() && files[k] == (name, found);
            assert(files[k].0 == name);
        }
    }
}

/// Removing a name takes it out of its directory. What it stood for goes if the kernel does not
/// refer to it, and its inode is free then; otherwise it stays as it was, without a link. Nothing
/// else changes.
pub proof fn law_what_removing_a_name_changes(
    v: FsView,
    parent: u64,
    name: Seq<u8>,
    is_rmdir: bool,
    file: (Seq<u8>, u64),
)
    requires
        v.wf(),
        v.can_unlink(parent, name, is_rmdir) is Ok,
    ensures
        ({
            let inode = v.can_unlink(parent, name, is_rmdir)->Ok_0;
            let w = link_dropped(v.without_name(parent, name), inode, names_total(v.entries));
            let dir = v.entries[parent as int]->0;
            let child = v.entries[inode as int]->0;
            &&& inode != parent
            &&& inode < v.entries.len()
            &&& parent < v.entries.len()
            &&& v.entries[inode as int] is Some
            &&& v.entries[parent as int] is Some
            &&& w.entries.len() == v.entries.len()
            &&& dir.content is Dir
            &&& dir.content->Dir_0.contains((name, inode))
            // its directory
            &&& w.entries[parent as int] matches Some(after)
            &&& after.parent == dir.parent
            &&& after.lookups == dir.lookups
            &&& after.links == dir.links
            &&& after.stat == dir.stat
            &&& after.content matches ContentView::Dir(files)
            &&& files.contains(file) <==> dir.content->Dir_0.contains(file) && file.0 != name
            // what it stood for
            &&& if child.lookups == 0 {
                w.entries[inode as int] is None && w.free == v.free.push(inode)
            } else {
                &&& w.free == v.free
                &&& w.entries[inode as int] matches Some(left)
                &&& left.links == 0
                &&& left.lookups == child.lookups
                &&& left.parent == child.parent
                &&& left.stat == child.stat
                &&& left.content == child.content
            }
            // the rest
            &&& forall|j: int|
                0 <= j < v.entries.len() && j != inode && j != parent ==> w.entries[j]
                    == v.entries[j]
        }),
{
    let inode = v.can_unlink(parent, name, is_rmdir)->Ok_0;
    let depth = names_total(v.entries);
    let files = v.entry(parent as int).content.names();
    let u = v.without_name(parent, name);
    assert(v.live(parent as int));
    lemma_named_is_live(v, parent as int, name);
    law_name_stands_for_one_inode(files, name, inode);
    law_removing_changes_one_name(files, name, file);
    assert(inode != parent) by {
        assert(files.len() > 0);
    }
    assert(unlinked(u.without(inode as int), Seq::empty(), (depth - 1) as nat) == u.without(
        inode as int,
    ));
    assert(u.entry(inode as int) == v.entry(inode as int));
    assert(u.entry(inode as int).content.names() =~= Seq::empty());
}

/// Exactly files hold bytes.
pub proof fn law_only_files_hold_bytes(v: FsView, inode: u64)
    ensures
        inode >= v.entries.len() ==> v.bytes(inode) == Err::<Seq<u8>, FsError>(
            FsError::NeverAdvertised(inode),
        ),
        inode < v.entries.len() ==> match v.entries[inode as int] {
            None => v.bytes(inode) == Err::<Seq<u8>, FsError>(FsError::Os(ENOENT)),
            Some(entry) => match entry.content {
                ContentView::Dir(_) => v.bytes(inode) == Err::<Seq<u8>, FsError>(
                    FsError::Os(EBADF),
                ),
                ContentView::File(bytes) => v.bytes(inode) == Ok::<Seq<u8>, FsError>(bytes),
            },
        },
{
}

/// A write puts its data where it says, and keeps every other byte. The file gets longer where the
/// data ends after it, with zeroes in between, and never shorter. Its size is told by its
/// attributes, of which no other changes, and nothing else changes either.
pub proof fn law_what_a_write_changes(v: FsView, inode: u64, data: Seq<u8>, offset: u64)
    requires
        v.bytes(inode) is Ok,
        offset + data.len() <= u64::MAX,
    ensures
        ({
            let w = v.written(inode, data, offset);
            let before = v.entries[inode as int]->0;
            let bytes = v.bytes(inode)->Ok_0;
            let end = offset + data.len();
            // the bytes
            &&& w.bytes(inode) matches Ok(after)
            &&& after.len() == if bytes.len() < end {
                end
            } else {
                bytes.len() as int
            }
            &&& forall|i: int| 0 <= i < data.len() ==> #[trigger] after[offset + i] == data[i]
            &&& forall|pos: int|
                0 <= pos < bytes.len() && !(offset <= pos < end) ==> #[trigger] after[pos]
                    == bytes[pos]
            &&& forall|pos: int| bytes.len() <= pos < offset ==> #[trigger] after[pos] == 0
            // the attributes
            &&& w.entries[inode as int] matches Some(entry)
            &&& after.len() <= i64::MAX ==> entry.stat.st_size == after.len()
            &&& entry.stat == (Stat { st_size: entry.stat.st_size, ..before.stat })
            &&& entry.parent == before.parent
            &&& entry.lookups == before.lookups
            &&& entry.links == before.links
            // the rest
            &&& w.free == v.free
            &&& w.entries.len() == v.entries.len()
            &&& forall|j: int|
                0 <= j < v.entries.len() && j != inode ==> w.entries[j] == v.entries[j]
        }),
{
    law_every_byte_after_a_write(v.bytes(inode)->Ok_0, data, offset as int);
}

/// Setting attributes sets them, and changes nothing else.
pub proof fn law_setting_attributes_sets_them(v: FsView, inode: u64, stat: Stat)
    requires
        inode < v.entries.len(),
        v.entries[inode as int] is Some,
    ensures
        ({
            let w = v.with_stat(inode, stat);
            let before = v.entries[inode as int]->0;
            &&& w.free == v.free
            &&& w.entries.len() == v.entries.len()
            &&& forall|j: int|
                0 <= j < v.entries.len() && j != inode ==> w.entries[j] == v.entries[j]
            &&& w.entries[inode as int] matches Some(entry)
            &&& entry.stat == stat
            &&& entry.lookups == before.lookups
            &&& entry.links == before.links
            &&& entry.parent == before.parent
            &&& entry.content == before.content
        }),
{
}

/// An error of the operating system fails a request with its number, any other with `EIO`.
pub proof fn law_error_numbers(errno: i32, inode: u64)
    ensures
        FsError::Os(errno).spec_errno() == errno,
        FsError::NeverAdvertised(inode).spec_errno() == EIO,
        FsError::NeverLookedUp.spec_errno() == EIO,
{
}

/// What is said of the table is said of what is in it.
pub proof fn law_table_is_seen_as_it_is(fs: Fs, i: int)
    requires
        0 <= i < fs.entries@.len(),
    ensures
        fs@.entries.len() == fs.entries@.len(),
        fs@.free == fs.free_inodes@,
        match fs.entries@[i] {
            None => fs@.entries[i] is None,
            Some(entry) => {
                &&& fs@.entries[i] matches Some(seen)
                &&& seen.parent == entry.parent
                &&& seen.lookups == entry.lookups
                &&& seen.links == entry.links
                &&& seen.stat == entry.stat
                &&& match entry.content {
                    FsContent::File(file) => seen.content == ContentView::File(file@),
                    FsContent::Dir(dir) => {
                        &&& seen.content matches ContentView::Dir(files)
                        &&& files.len() == dir.files@.len()
                        &&& forall|k: int|
                            0 <= k < files.len() ==> (#[trigger] files[k]).0
                                == dir.files@[k].name@ && files[k].1 == dir.files@[k].inode
                    },
                }
            },
        },
{
}

} // verus!
