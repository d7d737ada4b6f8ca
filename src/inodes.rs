//! The client's inode table: a partial bijection between inode numbers and remote paths.
use vstd::prelude::*;

verus! {

/// Some inode of `m` is bound to `p`.
pub open spec fn holds_path(m: Map<u64, Seq<char>>, p: Seq<char>) -> bool {
    exists|k: u64| m.contains_key(k) && m[k] == p
}

/// The inode bound to `p`, if any.
pub open spec fn inode_of(m: Map<u64, Seq<char>>, p: Seq<char>) -> Option<u64> {
    if holds_path(m, p) {
        Some(choose|k: u64| m.contains_key(k) && m[k] == p)
    } else {
        None
    }
}

/// The path bound to inode `i`, if any.
pub open spec fn path_of(m: Map<u64, Seq<char>>, i: u64) -> Option<Seq<char>> {
    if m.contains_key(i) {
        Some(m[i])
    } else {
        None
    }
}

/// No two inodes share a path.
pub open spec fn injective(m: Map<u64, Seq<char>>) -> bool {
    forall|a: u64, b: u64|
        m.contains_key(a) && m.contains_key(b) && #[trigger] m[a] == #[trigger] m[b] ==> a == b
}

/// Every inode lies in `1..=max`.
pub open spec fn bounded(m: Map<u64, Seq<char>>, max: u64) -> bool {
    forall|k: u64| #[trigger] m.contains_key(k) ==> 1 <= k <= max
}

/// `m` without the inodes bound to `p`.
pub open spec fn without_path(m: Map<u64, Seq<char>>, p: Seq<char>) -> Map<u64, Seq<char>> {
    Map::new(|k: u64| m.contains_key(k) && m[k] != p, |k: u64| m[k])
}

/// In an injective table the inode found for a path is the one bound to it.
pub proof fn lemma_inode_of_unique(m: Map<u64, Seq<char>>, p: Seq<char>, k: u64)
    requires
        injective(m),
        m.contains_key(k),
        m[k] == p,
    ensures
        inode_of(m, p) == Some(k),
{
    let c = choose|j: u64| m.contains_key(j) && m[j] == p;
    assert(m[c] == m[k]);
}

/// Looking up the path of the inode found for a path gives that path back.
pub proof fn lemma_path_of_inode_of(m: Map<u64, Seq<char>>, p: Seq<char>)
    ensures
        inode_of(m, p) matches Some(i) ==> path_of(m, i) == Some(p),
{
}

/// One binding of the table.
pub struct InodeEntry {
    pub inode: u64,
    pub path: String,
}

/// Inode numbers bound to remote paths. Numbers are handed out in increasing order
/// and never reused; a path has at most one inode.
pub struct Inodes {
    list: Vec<InodeEntry>,
    max_inode: u64,
    map: Ghost<Map<u64, Seq<char>>>,
}

impl View for Inodes {
    type V = Map<u64, Seq<char>>;

    closed spec fn view(&self) -> Map<u64, Seq<char>> {
        self.map@
    }
}

impl Default for Inodes {
    /// An empty table.
    fn default() -> (r: Inodes)
        ensures
            r@ == Map::<u64, Seq<char>>::empty(),
            r.allocated() == 0,
            r.wf(),
    {
        Inodes::new()
    }
}

impl Inodes {
    /// The largest inode handed out so far (0 before the first).
    pub closed spec fn allocated(&self) -> u64 {
        self.max_inode
    }

    /// The table's internal consistency.
    pub closed spec fn wf(&self) -> bool {
        &&& forall|j: int| 0 <= j < self.list.len() ==> {
            &&& 1 <= #[trigger] self.list@[j].inode <= self.max_inode
            &&& self.map@.contains_key(self.list@[j].inode)
            &&& self.map@[self.list@[j].inode] == self.list@[j].path@
        }
        &&& forall|j: int, l: int|
            0 <= j < self.list.len() && 0 <= l < self.list.len() && j != l ==> #[trigger] self.list@[j].inode
                != #[trigger] self.list@[l].inode
        &&& forall|k: u64| #[trigger]
            self.map@.contains_key(k) ==> exists|j: int| 0 <= j < self.list.len() && self.list@[j].inode == k
        &&& injective(self.map@)
        &&& bounded(self.map@, self.max_inode)
    }

    /// Every inode lies in `1..=allocated()`.
    pub proof fn lemma_bounded(&self)
        requires
            self.wf(),
        ensures
            bounded(self@, self.allocated()),
            injective(self@),
    {
    }

    /// An empty table.
    pub fn new() -> (r: Inodes)
        ensures
            r@ == Map::<u64, Seq<char>>::empty(),
            r.allocated() == 0,
            r.wf(),
            injective(r@),
    {
        Inodes { list: Vec::new(), max_inode: 0, map: Ghost(Map::empty()) }
    }

    /// Position of the entry for `path`.
    fn find_path(&self, path: &String) -> (r: Option<usize>)
        requires
            self.wf(),
        ensures
            r matches Some(j) ==> j < self.list.len() && self.list@[j as int].path@ == path@,
            r is None ==> forall|j: int| 0 <= j < self.list.len() ==> self.list@[j].path@ != path@,
    {
        let mut j: usize = 0;
        while j < self.list.len()
            invariant
                j <= self.list.len(),
                forall|l: int| 0 <= l < j ==> self.list@[l].path@ != path@,
            decreases self.list.len() - j,
        {
            if self.list[j].path == *path {
                return Some(j);
            }
            j = j + 1;
        }
        None
    }

    /// Position of the entry for `inode`.
    fn find_inode(&self, inode: u64) -> (r: Option<usize>)
        requires
            self.wf(),
        ensures
            r matches Some(j) ==> j < self.list.len() && self.list@[j as int].inode == inode,
            r is None ==> forall|j: int| 0 <= j < self.list.len() ==> self.list@[j].inode != inode,
    {
        let mut j: usize = 0;
        while j < self.list.len()
            invariant
                j <= self.list.len(),
                forall|l: int| 0 <= l < j ==> self.list@[l].inode != inode,
            decreases self.list.len() - j,
        {
            if self.list[j].inode == inode {
                return Some(j);
            }
            j = j + 1;
        }
        None
    }

    /// The inode of `path`: the one it already has, else a fresh one above every inode
    /// handed out before. `None` only when the path has none and the numbers are spent.
    pub fn add(&mut self, path: &str) -> (r: Option<u64>)
        requires
            old(self).wf(),
        ensures
            holds_path(old(self)@, path@) ==> r == inode_of(old(self)@, path@) && final(self)@ == old(
                self,
            )@ && final(self).allocated() == old(self).allocated(),
            !holds_path(old(self)@, path@) && old(self).allocated() < u64::MAX ==> {
                &&& r == Some((old(self).allocated() + 1) as u64)
                &&& final(self)@ == old(self)@.insert((old(self).allocated() + 1) as u64, path@)
                &&& final(self).allocated() == old(self).allocated() + 1
            },
            !holds_path(old(self)@, path@) && old(self).allocated() == u64::MAX ==> r is None
                && final(self)@ == old(self)@ && final(self).allocated() == old(self).allocated(),
            final(self).wf(),
            injective(final(self)@),
            bounded(final(self)@, final(self).allocated()),
    {
        let key = String::from_str(path);
        match self.find_path(&key) {
            Some(j) => {
                let ino = self.list[j].inode;
                proof {
                    lemma_inode_of_unique(self.map@, path@, ino);
                }
                Some(ino)
            },
            None => {
                proof {
                    if holds_path(self.map@, path@) {
                        let k = choose|k: u64| self.map@.contains_key(k) && self.map@[k] == path@;
                        let j = choose|j: int| 0 <= j < self.list.len() && self.list@[j].inode == k;
                        assert(self.list@[j].path@ == path@);
                    }
                }
                if self.max_inode == u64::MAX {
                    return None;
                }
                let ino = self.max_inode + 1;
                let ghost old_list = self.list@;
                let ghost new_map = self.map@.insert(ino, path@);
                proof {
                    assert(!self.map@.contains_key(ino));
                }
                self.list.push(InodeEntry { inode: ino, path: key });
                self.max_inode = ino;
                self.map = Ghost(new_map);
                proof {
                    assert forall|j: int| 0 <= j < self.list.len() implies {
                        &&& 1 <= #[trigger] self.list@[j].inode <= self.max_inode
                        &&& self.map@.contains_key(self.list@[j].inode)
                        &&& self.map@[self.list@[j].inode] == self.list@[j].path@
                    } by {
                        if j < old_list.len() {
                            assert(self.list@[j] == old_list[j]);
                        }
                    }
                    assert forall|k: u64| #[trigger] self.map@.contains_key(k) implies exists|j: int|
                        0 <= j < self.list.len() && self.list@[j].inode == k by {
                        if k == ino {
                            assert(self.list@[old_list.len() as int].inode == k);
                        } else {
                            let j = choose|j: int| 0 <= j < old_list.len() && old_list[j].inode == k;
                            assert(self.list@[j] == old_list[j]);
                        }
                    }
                    assert forall|a: u64, b: u64|
                        self.map@.contains_key(a) && self.map@.contains_key(b) && #[trigger] self.map@[a]
                            == #[trigger] self.map@[b] implies a == b by {
                        if a == ino && b != ino {
                            assert(old(self)@[b] == path@);
                        } else if b == ino && a != ino {
                            assert(old(self)@[a] == path@);
                        }
                    }
                }
                Some(ino)
            },
        }
    }

    /// The inode bound to `path`, if any.
    pub fn get_inode(&self, path: &str) -> (r: Option<u64>)
        requires
            self.wf(),
        ensures
            r == inode_of(self@, path@),
    {
        let key = String::from_str(path);
        match self.find_path(&key) {
            Some(j) => {
                proof {
                    lemma_inode_of_unique(self.map@, path@, self.list@[j as int].inode);
                }
                Some(self.list[j].inode)
            },
            None => {
                proof {
                    if holds_path(self.map@, path@) {
                        let k = choose|k: u64| self.map@.contains_key(k) && self.map@[k] == path@;
                        let j = choose|j: int| 0 <= j < self.list.len() && self.list@[j].inode == k;
                        assert(self.list@[j].path@ == path@);
                    }
                }
                None
            },
        }
    }

    /// The path bound to `inode`, if any.
    pub fn get_path(&self, inode: u64) -> (r: Option<String>)
        requires
            self.wf(),
        ensures
            r matches Some(p) ==> path_of(self@, inode) == Some(p@),
            r is None ==> path_of(self@, inode) is None,
    {
        match self.find_inode(inode) {
            Some(j) => Some(self.list[j].path.clone()),
            None => {
                proof {
                    if self.map@.contains_key(inode) {
                        let j = choose|j: int| 0 <= j < self.list.len() && self.list@[j].inode == inode;
                    }
                }
                None
            },
        }
    }

    /// Retires `inode`: its binding goes, and its number is never handed out again.
    pub fn del_inode(&mut self, inode: u64) -> (r: Option<u64>)
        requires
            old(self).wf(),
        ensures
            r == (if old(self)@.contains_key(inode) { Some(inode) } else { None::<u64> }),
            final(self)@ == old(self)@.remove(inode),
            final(self).allocated() == old(self).allocated(),
            final(self).wf(),
            injective(final(self)@),
            bounded(final(self)@, final(self).allocated()),
    {
        match self.find_inode(inode) {
            None => {
                proof {
                    if self.map@.contains_key(inode) {
                        let j = choose|j: int| 0 <= j < self.list.len() && self.list@[j].inode == inode;
                    }
                    assert(self.map@.remove(inode) =~= self.map@);
                }
                None
            },
            Some(j) => {
                let ghost old_list = self.list@;
                let ghost new_map = self.map@.remove(inode);
                self.list.remove(j);
                self.map = Ghost(new_map);
                proof {
                    assert forall|l: int| 0 <= l < self.list.len() implies {
                        &&& 1 <= #[trigger] self.list@[l].inode <= self.max_inode
                        &&& self.map@.contains_key(self.list@[l].inode)
                        &&& self.map@[self.list@[l].inode] == self.list@[l].path@
                    } by {
                        if l < j {
                            assert(self.list@[l] == old_list[l]);
                            assert(old_list[l].inode != old_list[j as int].inode);
                        } else {
                            assert(self.list@[l] == old_list[l + 1]);
                            assert(old_list[l + 1].inode != old_list[j as int].inode);
                        }
                    }
                    assert forall|a: int, b: int|
                        0 <= a < self.list.len() && 0 <= b < self.list.len() && a != b implies #[trigger] self.list@[a].inode
                            != #[trigger] self.list@[b].inode by {
                        let a0 = if a < j { a } else { a + 1 };
                        let b0 = if b < j { b } else { b + 1 };
                        assert(self.list@[a] == old_list[a0]);
                        assert(self.list@[b] == old_list[b0]);
                    }
                    assert forall|k: u64| #[trigger] self.map@.contains_key(k) implies exists|l: int|
                        0 <= l < self.list.len() && self.list@[l].inode == k by {
                        let l0 = choose|l: int| 0 <= l < old_list.len() && old_list[l].inode == k;
                        if l0 < j {
                            assert(self.list@[l0] == old_list[l0]);
                        } else {
                            assert(l0 != j);
                            assert(self.list@[l0 - 1] == old_list[l0]);
                        }
                    }
                }
                Some(inode)
            },
        }
    }

    /// Rebinds the inode of `old_path` to `new_path`, keeping its number; an inode that
    /// `new_path` had before is retired. False, with nothing changed, when `old_path`
    /// has no inode.
    pub fn _rename(&mut self, old_path: &str, new_path: &str) -> (r: bool)
        requires
            old(self).wf(),
        ensures
            r == holds_path(old(self)@, old_path@),
            !r ==> final(self)@ == old(self)@,
            r ==> final(self)@ == without_path(old(self)@, new_path@).insert(
                inode_of(old(self)@, old_path@)->0,
                new_path@,
            ),
            final(self).allocated() == old(self).allocated(),
            final(self).wf(),
            injective(final(self)@),
            bounded(final(self)@, final(self).allocated()),
    {
        let ino = match self.get_inode(old_path) {
            None => return false,
            Some(i) => i,
        };
        let ghost m0 = self.map@;
        match self.get_inode(new_path) {
            Some(other) => {
                if other != ino {
                    self.del_inode(other);
                }
            },
            None => {},
        }
        proof {
            let m1 = self.map@;
            assert(m1.contains_key(ino));
            let w = without_path(m0, new_path@);
            assert forall|k: u64| #[trigger] w.contains_key(k) && k != ino implies m1.contains_key(k) && m1[k] == w[k] by {
                if holds_path(m0, new_path@) {
                    let o = choose|o: u64| m0.contains_key(o) && m0[o] == new_path@;
                    lemma_inode_of_unique(m0, new_path@, o);
                }
            }
            assert forall|k: u64| #[trigger] m1.contains_key(k) && k != ino implies w.contains_key(k) by {
                if m0[k] == new_path@ {
                    lemma_inode_of_unique(m0, new_path@, k);
                }
            }
        }
        let key = String::from_str(new_path);
        match self.find_inode(ino) {
            None => {
                proof {
                    let j = choose|j: int| 0 <= j < self.list.len() && self.list@[j].inode == ino;
                }
                false
            },
            Some(j) => {
                let ghost old_list = self.list@;
                let ghost m1 = self.map@;
                let ghost new_map = self.map@.insert(ino, new_path@);
                self.list.set(j, InodeEntry { inode: ino, path: key });
                self.map = Ghost(new_map);
                proof {
                    assert forall|l: int| 0 <= l < self.list.len() implies {
                        &&& 1 <= #[trigger] self.list@[l].inode <= self.max_inode
                        &&& self.map@.contains_key(self.list@[l].inode)
                        &&& self.map@[self.list@[l].inode] == self.list@[l].path@
                    } by {
                        if l != j {
                            assert(self.list@[l] == old_list[l]);
                            assert(old_list[l].inode != old_list[j as int].inode);
                        }
                    }
                    assert forall|k: u64| #[trigger] self.map@.contains_key(k) implies exists|l: int|
                        0 <= l < self.list.len() && self.list@[l].inode == k by {
                        if k == ino {
                            assert(self.list@[j as int].inode == k);
                        } else {
                            let l0 = choose|l: int| 0 <= l < old_list.len() && old_list[l].inode == k;
                            assert(self.list@[l0] == old_list[l0]);
                        }
                    }
                    assert forall|a: u64, b: u64|
                        self.map@.contains_key(a) && self.map@.contains_key(b) && #[trigger] self.map@[a]
                            == #[trigger] self.map@[b] implies a == b by {
                        if a == ino && b != ino {
                            assert(m1[b] == new_path@);
                            lemma_inode_of_unique(m0, new_path@, b);
                        } else if b == ino && a != ino {
                            assert(m1[a] == new_path@);
                            lemma_inode_of_unique(m0, new_path@, a);
                        }
                    }
                    let w = without_path(m0, new_path@).insert(ino, new_path@);
                    assert(self.map@ =~= w);
                }
                true
            },
        }
    }
}

} // verus!
