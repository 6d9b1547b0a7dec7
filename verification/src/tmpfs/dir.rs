//! Directories: names in order, each with the inode that it stands for.

use vstd::prelude::*;

verus! {

/// A name in a directory.
#[derive(Debug)]
pub struct DirFile {
    pub name: Vec<u8>,
    pub inode: u64,
}

/// A directory.
#[derive(Debug)]
pub struct Dir {
    /// The names, in the order of their bytes.
    pub files: Vec<DirFile>,
}

/// Whether `a` comes before `b` in the order of their bytes.
pub open spec fn name_before(a: Seq<u8>, b: Seq<u8>) -> bool
    decreases a.len(),
{
    if b.len() == 0 {
        false
    } else if a.len() == 0 {
        true
    } else if a[0] != b[0] {
        a[0] < b[0]
    } else {
        name_before(a.drop_first(), b.drop_first())
    }
}

/// Whether names are in order; none can be there twice then.
pub open spec fn sorted(files: Seq<(Seq<u8>, u64)>) -> bool {
    forall|i: int, j: int|
        0 <= i < j < files.len() ==> name_before((#[trigger] files[i]).0, (#[trigger] files[j]).0)
}

/// Whether `name` is at place `i`.
pub open spec fn is_at(files: Seq<(Seq<u8>, u64)>, name: Seq<u8>, i: int) -> bool {
    0 <= i < files.len() && files[i].0 == name
}

/// The inode that a name stands for.
pub open spec fn inode_of(files: Seq<(Seq<u8>, u64)>, name: Seq<u8>) -> Option<u64> {
    if exists|i: int| is_at(files, name, i) {
        Some(files[choose|i: int| is_at(files, name, i)].1)
    } else {
        None
    }
}

/// Names with one more: it comes after those that are before it.
pub open spec fn with_name(files: Seq<(Seq<u8>, u64)>, name: Seq<u8>, inode: u64) -> Seq<
    (Seq<u8>, u64),
>
    decreases files.len(),
{
    if files.len() > 0 && name_before(name, files.last().0) {
        with_name(files.drop_last(), name, inode).push(files.last())
    } else {
        files.push((name, inode))
    }
}

/// Names without one.
pub open spec fn without_name(files: Seq<(Seq<u8>, u64)>, name: Seq<u8>) -> Seq<(Seq<u8>, u64)> {
    files.filter(|file: (Seq<u8>, u64)| file.0 != name)
}

impl View for Dir {
    type V = Seq<(Seq<u8>, u64)>;

    /// The names and their inodes.
    open spec fn view(&self) -> Seq<(Seq<u8>, u64)> {
        self.files@.map_values(|file: DirFile| (file.name@, file.inode))
    }
}

/// No name comes before itself.
proof fn lemma_not_before_itself(a: Seq<u8>)
    ensures
        !name_before(a, a),
    decreases a.len(),
{
    if a.len() > 0 {
        lemma_not_before_itself(a.drop_first());
    }
}

/// Of two names that differ, one comes before the other.
proof fn lemma_one_is_before(a: Seq<u8>, b: Seq<u8>)
    ensures
        name_before(a, b) || name_before(b, a) || a == b,
        !(name_before(a, b) && name_before(b, a)),
    decreases a.len(),
{
    if a.len() > 0 && b.len() > 0 && a[0] == b[0] {
        lemma_one_is_before(a.drop_first(), b.drop_first());
        if a.drop_first() == b.drop_first() {
            assert(a == seq![a[0]] + a.drop_first());
            assert(b == seq![b[0]] + b.drop_first());
        }
    } else if a.len() == 0 && b.len() == 0 {
        assert(a == b);
    }
}

/// What comes before a name comes before those after it.
proof fn lemma_before_is_transitive(a: Seq<u8>, b: Seq<u8>, c: Seq<u8>)
    requires
        name_before(a, b),
        name_before(b, c),
    ensures
        name_before(a, c),
    decreases a.len(),
{
    if a.len() > 0 && a[0] == b[0] && b[0] == c[0] {
        lemma_before_is_transitive(a.drop_first(), b.drop_first(), c.drop_first());
    }
}

/// How two names compare.
#[derive(Clone, Copy, Debug, PartialEq, Eq, Structural)]
enum NameOrder {
    Before,
    Same,
    After,
}

/// Compares names by their bytes.
fn name_order(a: &[u8], b: &[u8]) -> (res: NameOrder)
    ensures
        match res {
            NameOrder::Before => name_before(a@, b@),
            NameOrder::Same => a@ == b@,
            NameOrder::After => name_before(b@, a@),
        },
{
    let mut i: usize = 0;
    assert(a@.skip(0) == a@ && b@.skip(0) == b@);
    while i < a.len() && i < b.len()
        invariant
            i <= a@.len(),
            i <= b@.len(),
            a@.take(i as int) == b@.take(i as int),
            name_before(a@, b@) == name_before(a@.skip(i as int), b@.skip(i as int)),
            name_before(b@, a@) == name_before(b@.skip(i as int), a@.skip(i as int)),
        decreases a@.len() - i,
    {
        if a[i] < b[i] {
            return NameOrder::Before;
        }
        if b[i] < a[i] {
            return NameOrder::After;
        }
        proof {
            assert(a@.skip(i as int).drop_first() == a@.skip(i + 1));
            assert(b@.skip(i as int).drop_first() == b@.skip(i + 1));
            assert(a@.take(i + 1) == a@.take(i as int).push(a@[i as int]));
            assert(b@.take(i + 1) == b@.take(i as int).push(b@[i as int]));
        }
        i = i + 1;
    }
    if i < b.len() {
        NameOrder::Before
    } else if i < a.len() {
        NameOrder::After
    } else {
        assert(a@.take(i as int) == a@ && b@.take(i as int) == b@);
        NameOrder::Same
    }
}

impl Dir {
    /// Whether the names are in order.
    pub open spec fn wf(self) -> bool {
        sorted(self@)
    }

    /// An empty directory.
    pub fn new() -> (res: Dir)
        ensures
            res.wf(),
            res@ == Seq::<(Seq<u8>, u64)>::empty(),
    {
        let dir = Dir { files: Vec::new() };
        assert(dir@ == Seq::<(Seq<u8>, u64)>::empty());
        dir
    }

    /// Whether there is no name in the directory.
    pub fn is_empty(&self) -> (res: bool)
        ensures
            res == (self@.len() == 0),
    {
        self.files.len() == 0
    }

    /// Where a name is, or where it would be.
    fn search(&self, name: &[u8]) -> (res: Result<usize, usize>)
        requires
            self.wf(),
        ensures
            match res {
                Ok(i) => is_at(self@, name@, i as int),
                Err(n) => {
                    &&& n <= self@.len()
                    &&& forall|i: int| 0 <= i < n ==> name_before((#[trigger] self@[i]).0, name@)
                    &&& forall|i: int|
                        n <= i < self@.len() ==> name_before(name@, (#[trigger] self@[i]).0)
                },
            },
    {
        let mut a: usize = 0;
        let mut b: usize = self.files.len();
        while a < b
            invariant
                a <= b <= self@.len(),
                self@.len() == self.files@.len(),
                self.wf(),
                forall|i: int| 0 <= i < a ==> name_before((#[trigger] self@[i]).0, name@),
                forall|i: int| b <= i < self@.len() ==> name_before(name@, (#[trigger] self@[i]).0),
            decreases b - a,
        {
            let i: usize = a + (b - a) / 2;
            assert(self@[i as int] == (self.files@[i as int].name@, self.files@[i as int].inode));
            match name_order(self.files[i].name.as_slice(), name) {
                NameOrder::Same => {
                    return Ok(i);
                },
                NameOrder::Before => {
                    proof {
                        assert forall|k: int| 0 <= k <= i implies name_before(
                            (#[trigger] self@[k]).0,
                            name@,
                        ) by {
                            if k < i {
                                lemma_before_is_transitive(self@[k].0, self@[i as int].0, name@);
                            }
                        }
                    }
                    a = i + 1;
                },
                NameOrder::After => {
                    proof {
                        assert forall|k: int| i <= k < self@.len() implies name_before(
                            name@,
                            (#[trigger] self@[k]).0,
                        ) by {
                            if i < k {
                                lemma_before_is_transitive(name@, self@[i as int].0, self@[k].0);
                            }
                        }
                    }
                    b = i;
                },
            }
        }
        Err(a)
    }

    /// The inode that a name stands for.
    pub fn get(&self, name: &[u8]) -> (res: Option<u64>)
        requires
            self.wf(),
        ensures
            res == inode_of(self@, name@),
    {
        match self.search(name) {
            Ok(i) => {
                proof {
                    lemma_inode_of(self@, name@, i as int);
                }
                Some(self.files[i].inode)
            },
            Err(n) => {
                proof {
                    lemma_not_there(self@, name@, n as int);
                }
                None
            },
        }
    }

    /// Adds a name that is not there.
    pub fn insert(&mut self, name: Vec<u8>, inode: u64)
        requires
            old(self).wf(),
            inode_of(old(self)@, name@) is None,
        ensures
            final(self).wf(),
            final(self)@ == with_name(old(self)@, name@, inode),
    {
        match self.search(name.as_slice()) {
            Ok(i) => {
                assert(is_at(self@, name@, i as int));
            },
            Err(n) => {
                let ghost file = (name@, inode);
                let ghost before = self@;
                self.files.insert(n, DirFile { name, inode });
                proof {
                    assert(self@ == before.insert(n as int, file));
                    lemma_with_name(before, file.0, inode, n as int);
                }
            },
        }
    }

    /// Removes a name that is there.
    pub fn remove(&mut self, name: &[u8]) -> (res: Option<u64>)
        requires
            old(self).wf(),
        ensures
            final(self).wf(),
            res == inode_of(old(self)@, name@),
            final(self)@ == without_name(old(self)@, name@),
    {
        match self.search(name) {
            Ok(i) => {
                let ghost before = self@;
                let file = self.files.remove(i);
                proof {
                    assert(self@ == before.remove(i as int));
                    lemma_inode_of(before, name@, i as int);
                    lemma_without_name(before, name@, i as int);
                }
                Some(file.inode)
            },
            Err(n) => {
                proof {
                    lemma_not_there(self@, name@, n as int);
                    lemma_without_nothing(self@, name@);
                }
                None
            },
        }
    }
}

/// A name is in one place.
pub proof fn lemma_inode_of(files: Seq<(Seq<u8>, u64)>, name: Seq<u8>, i: int)
    requires
        sorted(files),
        is_at(files, name, i),
    ensures
        inode_of(files, name) == Some(files[i].1),
        forall|k: int| is_at(files, name, k) ==> k == i,
{
    assert forall|k: int| is_at(files, name, k) implies k == i by {
        lemma_not_before_itself(name);
        if k < i {
            assert(name_before(files[k].0, files[i].0));
        } else if i < k {
            assert(name_before(files[i].0, files[k].0));
        }
    }
}

/// A name that would be between two others is not there.
proof fn lemma_not_there(files: Seq<(Seq<u8>, u64)>, name: Seq<u8>, n: int)
    requires
        0 <= n <= files.len(),
        forall|i: int| 0 <= i < n ==> name_before((#[trigger] files[i]).0, name),
        forall|i: int| n <= i < files.len() ==> name_before(name, (#[trigger] files[i]).0),
    ensures
        inode_of(files, name) is None,
{
    assert forall|i: int| !is_at(files, name, i) by {
        lemma_not_before_itself(name);
        if is_at(files, name, i) {
            assert(files[i].0 == name);
        }
    }
}

/// Adding a name puts it between those before it and those after it.
proof fn lemma_with_name(files: Seq<(Seq<u8>, u64)>, name: Seq<u8>, inode: u64, n: int)
    requires
        sorted(files),
        0 <= n <= files.len(),
        forall|i: int| 0 <= i < n ==> name_before((#[trigger] files[i]).0, name),
        forall|i: int| n <= i < files.len() ==> name_before(name, (#[trigger] files[i]).0),
    ensures
        with_name(files, name, inode) == files.insert(n, (name, inode)),
        sorted(with_name(files, name, inode)),
    decreases files.len(),
{
    let after = files.insert(n, (name, inode));
    assert forall|i: int, j: int| 0 <= i < j < after.len() implies name_before(
        (#[trigger] after[i]).0,
        (#[trigger] after[j]).0,
    ) by {
        if i != n && j != n {
            let x = if i < n {
                i
            } else {
                i - 1
            };
            let y = if j < n {
                j
            } else {
                j - 1
            };
            assert(name_before(files[x].0, files[y].0));
        }
    }
    if n < files.len() {
        let rest = files.drop_last();
        assert(files.last() == files[files.len() - 1]);
        assert forall|i: int, j: int| 0 <= i < j < rest.len() implies name_before(
            (#[trigger] rest[i]).0,
            (#[trigger] rest[j]).0,
        ) by {
            assert(name_before(files[i].0, files[j].0));
        }
        lemma_with_name(rest, name, inode, n);
        assert(rest.insert(n, (name, inode)).push(files.last()) == after);
    } else {
        if files.len() > 0 {
            assert(name_before(files[files.len() - 1].0, name));
            lemma_one_is_before(name, files.last().0);
        }
        assert(after == files.push((name, inode)));
    }
}

/// Removing a name that is not there changes nothing.
proof fn lemma_without_nothing(files: Seq<(Seq<u8>, u64)>, name: Seq<u8>)
    requires
        forall|i: int| !is_at(files, name, i),
    ensures
        without_name(files, name) == files,
    decreases files.len(),
{
    reveal(Seq::filter);
    if files.len() > 0 {
        let rest = files.drop_last();
        assert forall|i: int| !is_at(rest, name, i) by {
            assert(!is_at(files, name, i));
        }
        lemma_without_nothing(rest, name);
        assert(!is_at(files, name, files.len() - 1));
        assert(rest.push(files.last()) == files);
    }
}

/// Removing a name closes the gap.
proof fn lemma_without_name(files: Seq<(Seq<u8>, u64)>, name: Seq<u8>, i: int)
    requires
        sorted(files),
        is_at(files, name, i),
    ensures
        without_name(files, name) == files.remove(i),
        sorted(files.remove(i)),
    decreases files.len(),
{
    reveal(Seq::filter);
    let after = files.remove(i);
    assert forall|a: int, b: int| 0 <= a < b < after.len() implies name_before(
        (#[trigger] after[a]).0,
        (#[trigger] after[b]).0,
    ) by {
        let x = if a < i {
            a
        } else {
            a + 1
        };
        let y = if b < i {
            b
        } else {
            b + 1
        };
        assert(name_before(files[x].0, files[y].0));
    }
    lemma_inode_of(files, name, i);
    let rest = files.drop_last();
    if i == files.len() - 1 {
        assert forall|k: int| !is_at(rest, name, k) by {
            if is_at(rest, name, k) {
                assert(is_at(files, name, k));
            }
        }
        lemma_without_nothing(rest, name);
        assert(after == rest);
    } else {
        assert(!is_at(files, name, files.len() - 1));
        assert forall|a: int, b: int| 0 <= a < b < rest.len() implies name_before(
            (#[trigger] rest[a]).0,
            (#[trigger] rest[b]).0,
        ) by {
            assert(name_before(files[a].0, files[b].0));
        }
        lemma_without_name(rest, name, i);
        assert(rest.remove(i).push(files.last()) == after);
    }
}

/// There is a place for every name: after those that come before it.
proof fn lemma_place(files: Seq<(Seq<u8>, u64)>, name: Seq<u8>) -> (n: int)
    requires
        sorted(files),
        inode_of(files, name) is None,
    ensures
        0 <= n <= files.len(),
        forall|i: int| 0 <= i < n ==> name_before((#[trigger] files[i]).0, name),
        forall|i: int| n <= i < files.len() ==> name_before(name, (#[trigger] files[i]).0),
    decreases files.len(),
{
    if files.len() == 0 {
        0
    } else {
        let rest = files.drop_last();
        let last = files.len() - 1;
        assert(!is_at(files, name, last));
        lemma_one_is_before(name, files[last].0);
        if name_before(name, files[last].0) {
            assert forall|i: int, j: int| 0 <= i < j < rest.len() implies name_before(
                (#[trigger] rest[i]).0,
                (#[trigger] rest[j]).0,
            ) by {
                assert(name_before(files[i].0, files[j].0));
            }
            assert forall|i: int| !is_at(rest, name, i) by {
                assert(!is_at(files, name, i));
            }
            let n = lemma_place(rest, name);
            assert forall|i: int| n <= i < files.len() implies name_before(
                name,
                (#[trigger] files[i]).0,
            ) by {
                if i < last {
                    assert(rest[i] == files[i]);
                }
            }
            assert forall|i: int| 0 <= i < n implies name_before((#[trigger] files[i]).0, name) by {
                assert(rest[i] == files[i]);
            }
            n
        } else {
            assert forall|i: int| 0 <= i < files.len() implies name_before(
                (#[trigger] files[i]).0,
                name,
            ) by {
                if i < last {
                    lemma_before_is_transitive(files[i].0, files[last].0, name);
                }
            }
            files.len() as int
        }
    }
}

/// Adding a name that is not there puts it in between the others.
pub proof fn lemma_name_added(files: Seq<(Seq<u8>, u64)>, name: Seq<u8>, inode: u64) -> (n: int)
    requires
        sorted(files),
        inode_of(files, name) is None,
    ensures
        0 <= n <= files.len(),
        with_name(files, name, inode) == files.insert(n, (name, inode)),
        sorted(with_name(files, name, inode)),
{
    let n = lemma_place(files, name);
    lemma_with_name(files, name, inode, n);
    n
}

/// Removing a name that is there takes it out from between the others.
pub proof fn lemma_name_removed(files: Seq<(Seq<u8>, u64)>, name: Seq<u8>) -> (i: int)
    requires
        sorted(files),
        inode_of(files, name) is Some,
    ensures
        is_at(files, name, i),
        inode_of(files, name) == Some(files[i].1),
        without_name(files, name) == files.remove(i),
        sorted(without_name(files, name)),
{
    let i = choose|i: int| is_at(files, name, i);
    lemma_without_name(files, name, i);
    i
}

/// A name that was added stands for its inode, and all other names stand for what they stood for.
pub proof fn law_added_name_is_found(
    files: Seq<(Seq<u8>, u64)>,
    name: Seq<u8>,
    inode: u64,
    other: Seq<u8>,
)
    requires
        sorted(files),
        inode_of(files, name) is None,
    ensures
        sorted(with_name(files, name, inode)),
        inode_of(with_name(files, name, inode), other) == if other == name {
            Some(inode)
        } else {
            inode_of(files, other)
        },
{
    let n = lemma_name_added(files, name, inode);
    let after = with_name(files, name, inode);
    if other == name {
        assert(is_at(after, name, n));
        lemma_inode_of(after, name, n);
    } else if exists|i: int| is_at(files, other, i) {
        let i = choose|i: int| is_at(files, other, i);
        let k = if i < n {
            i
        } else {
            i + 1
        };
        assert(is_at(after, other, k));
        lemma_inode_of(after, other, k);
    } else {
        assert forall|k: int| !is_at(after, other, k) by {
            if is_at(after, other, k) {
                assert(is_at(
                    files,
                    other,
                    if k < n {
                        k
                    } else {
                        k - 1
                    },
                ));
            }
        }
    }
}

/// A name that was removed stands for nothing, and all other names stand for what they stood for.
pub proof fn law_removed_name_is_gone(files: Seq<(Seq<u8>, u64)>, name: Seq<u8>, other: Seq<u8>)
    requires
        sorted(files),
    ensures
        sorted(without_name(files, name)),
        inode_of(without_name(files, name), other) == if other == name {
            None
        } else {
            inode_of(files, other)
        },
{
    if inode_of(files, name) is None {
        lemma_without_nothing(files, name);
    } else {
        let n = lemma_name_removed(files, name);
        let after = without_name(files, name);
        lemma_inode_of(files, name, n);
        if other != name && exists|i: int| is_at(files, other, i) {
            let i = choose|i: int| is_at(files, other, i);
            let k = if i < n {
                i
            } else {
                i - 1
            };
            assert(is_at(after, other, k));
            lemma_inode_of(after, other, k);
        } else {
            assert forall|k: int| !is_at(after, other, k) by {
                if is_at(after, other, k) {
                    assert(is_at(
                        files,
                        other,
                        if k < n {
                            k
                        } else {
                            k + 1
                        },
                    ));
                }
            }
        }
    }
}

/// A name that is added and then removed leaves no trace.
pub proof fn law_removing_undoes_adding(files: Seq<(Seq<u8>, u64)>, name: Seq<u8>, inode: u64)
    requires
        sorted(files),
        inode_of(files, name) is None,
    ensures
        without_name(with_name(files, name, inode), name) == files,
{
    let n = lemma_name_added(files, name, inode);
    let after = with_name(files, name, inode);
    assert(is_at(after, name, n));
    lemma_inode_of(after, name, n);
    let i = lemma_name_removed(after, name);
    assert(after.remove(n) =~= files);
}

/// A name stands for the inode that is listed with it, and for no other; one that is not listed
/// stands for none.
pub proof fn law_name_stands_for_one_inode(files: Seq<(Seq<u8>, u64)>, name: Seq<u8>, inode: u64)
    requires
        sorted(files),
    ensures
        files.contains((name, inode)) <==> inode_of(files, name) == Some(inode),
        inode_of(files, name) is None <==> forall|i: int|
            0 <= i < files.len() ==> (#[trigger] files[i]).0 != name,
{
    if files.contains((name, inode)) {
        let i = choose|i: int| 0 <= i < files.len() && files[i] == (name, inode);
        assert(is_at(files, name, i));
        lemma_inode_of(files, name, i);
    }
    if inode_of(files, name) is Some {
        let i = choose|i: int| is_at(files, name, i);
        assert(is_at(files, name, i));
        lemma_inode_of(files, name, i);
        assert(files[i] == (name, inode_of(files, name)->0));
    } else {
        assert forall|i: int| 0 <= i < files.len() implies (#[trigger] files[i]).0 != name by {
            assert(!is_at(files, name, i));
        }
    }
}

/// Adding a name adds it, and changes nothing else.
pub proof fn law_adding_changes_one_name(
    files: Seq<(Seq<u8>, u64)>,
    name: Seq<u8>,
    inode: u64,
    file: (Seq<u8>, u64),
)
    requires
        sorted(files),
        forall|i: int| 0 <= i < files.len() ==> (#[trigger] files[i]).0 != name,
    ensures
        with_name(files, name, inode).len() == files.len() + 1,
        with_name(files, name, inode).contains(file) <==> files.contains(file) || file == (
            name,
            inode,
        ),
{
    law_name_stands_for_one_inode(files, name, inode);
    let n = lemma_name_added(files, name, inode);
    let after = with_name(files, name, inode);
    assert(after[n] == (name, inode));
    if files.contains(file) {
        let i = choose|i: int| 0 <= i < files.len() && files[i] == file;
        assert(after[if i < n {
            i
        } else {
            i + 1
        }] == file);
    }
    if after.contains(file) {
        let i = choose|i: int| 0 <= i < after.len() && after[i] == file;
        if i != n {
            assert(files[if i < n {
                i
            } else {
                i - 1
            }] == file);
        }
    }
}

/// Removing a name removes it, and changes nothing else.
pub proof fn law_removing_changes_one_name(
    files: Seq<(Seq<u8>, u64)>,
    name: Seq<u8>,
    file: (Seq<u8>, u64),
)
    requires
        sorted(files),
    ensures
        without_name(files, name).contains(file) <==> files.contains(file) && file.0 != name,
{
    law_name_stands_for_one_inode(files, name, file.1);
    law_name_stands_for_one_inode(files, file.0, file.1);
    law_removed_name_is_gone(files, name, file.0);
    law_name_stands_for_one_inode(without_name(files, name), file.0, file.1);
}

/// Names are ordered by the first byte in which they differ, and one that another begins with
/// comes before it. No name comes before itself.
pub proof fn law_names_are_ordered_by_their_bytes(a: Seq<u8>, b: Seq<u8>, i: int)
    requires
        0 <= i <= a.len(),
        i <= b.len(),
        forall|k: int| 0 <= k < i ==> a[k] == b[k],
    ensures
        i == a.len() && i == b.len() ==> !name_before(a, b),
        i == a.len() && i < b.len() ==> name_before(a, b) && !name_before(b, a),
        i < a.len() && i < b.len() && a[i] < b[i] ==> name_before(a, b) && !name_before(b, a),
    decreases i,
{
    if i > 0 {
        assert(a[0] == b[0]);
        let x = a.drop_first();
        let y = b.drop_first();
        assert forall|k: int| 0 <= k < i - 1 implies x[k] == y[k] by {
            assert(a[k + 1] == b[k + 1]);
        }
        law_names_are_ordered_by_their_bytes(x, y, i - 1);
    }
}

/// Names in order are in order whichever two are taken, and none is there twice.
pub proof fn law_sorted_names_differ(files: Seq<(Seq<u8>, u64)>, i: int, j: int)
    requires
        sorted(files),
        0 <= i < j < files.len(),
    ensures
        name_before(files[i].0, files[j].0),
        files[i].0 != files[j].0,
{
    lemma_not_before_itself(files[i].0);
}

} // verus!
