//! The client's open-file table: kernel file handles bound to open remote files.
use vstd::prelude::*;

verus! {

/// One open file and its handle.
pub struct FileSlot<F> {
    pub fh: u64,
    pub file: F,
}

/// Handles are unique in `s`.
pub open spec fn unique_handles<F>(s: Seq<FileSlot<F>>) -> bool {
    forall|a: int, b: int| 0 <= a < s.len() && 0 <= b < s.len() && a != b ==> #[trigger] s[a].fh != #[trigger] s[b].fh
}

/// Some slot of `s` holds handle `k`.
pub open spec fn has_handle<F>(s: Seq<FileSlot<F>>, k: u64) -> bool {
    exists|j: int| 0 <= j < s.len() && s[j].fh == k
}

/// The files of `s`, by handle.
pub open spec fn slot_map<F>(s: Seq<FileSlot<F>>) -> Map<u64, F> {
    Map::new(|k: u64| has_handle(s, k), |k: u64| s[choose|j: int| 0 <= j < s.len() && s[j].fh == k].file)
}

proof fn lemma_slot_map_at<F>(s: Seq<FileSlot<F>>, j: int)
    requires
        unique_handles(s),
        0 <= j < s.len(),
    ensures
        slot_map(s).contains_key(s[j].fh),
        slot_map(s)[s[j].fh] == s[j].file,
{
    let k = s[j].fh;
    assert(has_handle(s, k));
    let c = choose|i: int| 0 <= i < s.len() && s[i].fh == k;
    assert(c == j);
}

proof fn lemma_slot_map_push<F>(s: Seq<FileSlot<F>>, x: FileSlot<F>)
    requires
        unique_handles(s),
        !has_handle(s, x.fh),
    ensures
        unique_handles(s.push(x)),
        slot_map(s.push(x)) == slot_map(s).insert(x.fh, x.file),
{
    let t = s.push(x);
    assert forall|a: int, b: int| 0 <= a < t.len() && 0 <= b < t.len() && a != b implies #[trigger] t[a].fh != #[trigger] t[b].fh by {
        if a < s.len() && b < s.len() {
            assert(t[a] == s[a] && t[b] == s[b]);
        } else if a < s.len() {
            assert(t[a] == s[a]);
        } else {
            assert(t[b] == s[b]);
        }
    }
    assert forall|k: u64| has_handle(t, k) <==> (has_handle(s, k) || k == x.fh) by {
        if has_handle(s, k) {
            let j = choose|j: int| 0 <= j < s.len() && s[j].fh == k;
            assert(t[j] == s[j]);
        }
        if has_handle(t, k) && k != x.fh {
            let j = choose|j: int| 0 <= j < t.len() && t[j].fh == k;
            assert(t[j] == s[j]);
        }
        assert(t[s.len() as int] == x);
    }
    assert forall|k: u64| #[trigger] slot_map(t).contains_key(k) implies slot_map(t)[k] == slot_map(s).insert(x.fh, x.file)[k] by {
        let j = choose|j: int| 0 <= j < t.len() && t[j].fh == k;
        lemma_slot_map_at(t, j);
        if j < s.len() {
            assert(t[j] == s[j]);
            lemma_slot_map_at(s, j);
        }
    }
    assert(slot_map(t) =~= slot_map(s).insert(x.fh, x.file));
}

proof fn lemma_slot_map_update<F>(s: Seq<FileSlot<F>>, j: int, f: F)
    requires
        unique_handles(s),
        0 <= j < s.len(),
    ensures
        unique_handles(s.update(j, FileSlot { fh: s[j].fh, file: f })),
        slot_map(s.update(j, FileSlot { fh: s[j].fh, file: f })) == slot_map(s).insert(s[j].fh, f),
{
    let t = s.update(j, FileSlot { fh: s[j].fh, file: f });
    assert forall|a: int, b: int| 0 <= a < t.len() && 0 <= b < t.len() && a != b implies #[trigger] t[a].fh != #[trigger] t[b].fh by {
        assert(t[a].fh == s[a].fh && t[b].fh == s[b].fh);
    }
    assert forall|k: u64| has_handle(t, k) <==> has_handle(s, k) by {
        if has_handle(s, k) {
            let i = choose|i: int| 0 <= i < s.len() && s[i].fh == k;
            assert(t[i].fh == k);
        }
        if has_handle(t, k) {
            let i = choose|i: int| 0 <= i < t.len() && t[i].fh == k;
            assert(s[i].fh == k);
        }
    }
    assert forall|k: u64| #[trigger] slot_map(t).contains_key(k) implies slot_map(t)[k] == slot_map(s).insert(s[j].fh, f)[k] by {
        let i = choose|i: int| 0 <= i < t.len() && t[i].fh == k;
        lemma_slot_map_at(t, i);
        if i != j {
            lemma_slot_map_at(s, i);
        }
    }
    assert(slot_map(t) =~= slot_map(s).insert(s[j].fh, f));
}

proof fn lemma_slot_map_remove<F>(s: Seq<FileSlot<F>>, j: int)
    requires
        unique_handles(s),
        0 <= j < s.len(),
    ensures
        unique_handles(s.remove(j)),
        slot_map(s.remove(j)) == slot_map(s).remove(s[j].fh),
{
    let t = s.remove(j);
    assert forall|a: int, b: int| 0 <= a < t.len() && 0 <= b < t.len() && a != b implies #[trigger] t[a].fh != #[trigger] t[b].fh by {
        let a0 = if a < j { a } else { a + 1 };
        let b0 = if b < j { b } else { b + 1 };
        assert(t[a] == s[a0] && t[b] == s[b0]);
    }
    assert forall|k: u64| has_handle(t, k) <==> (has_handle(s, k) && k != s[j].fh) by {
        if has_handle(s, k) && k != s[j].fh {
            let i = choose|i: int| 0 <= i < s.len() && s[i].fh == k;
            if i < j {
                assert(t[i] == s[i]);
            } else {
                assert(i != j);
                assert(t[i - 1] == s[i]);
            }
        }
        if has_handle(t, k) {
            let i = choose|i: int| 0 <= i < t.len() && t[i].fh == k;
            let i0 = if i < j { i } else { i + 1 };
            assert(t[i] == s[i0]);
        }
    }
    assert forall|k: u64| #[trigger] slot_map(t).contains_key(k) implies slot_map(t)[k] == slot_map(s).remove(s[j].fh)[k] by {
        let i = choose|i: int| 0 <= i < t.len() && t[i].fh == k;
        lemma_slot_map_at(t, i);
        let i0 = if i < j { i } else { i + 1 };
        assert(t[i] == s[i0]);
        lemma_slot_map_at(s, i0);
    }
    assert(slot_map(t) =~= slot_map(s).remove(s[j].fh));
}

/// Open files by kernel handle. Handles come from a counter and are never reused.
pub struct FHandlers<F> {
    list: Vec<FileSlot<F>>,
    next_fh: u64,
}

impl<F> View for FHandlers<F> {
    type V = Map<u64, F>;

    closed spec fn view(&self) -> Map<u64, F> {
        slot_map(self.list@)
    }
}

impl<F> FHandlers<F> {
    /// The handle that the next `add` hands out.
    pub closed spec fn next_handle(&self) -> u64 {
        self.next_fh
    }

    /// Every handle is unique and below the counter.
    pub closed spec fn wf(&self) -> bool {
        &&& unique_handles(self.list@)
        &&& forall|j: int| 0 <= j < self.list.len() ==> #[trigger] self.list@[j].fh < self.next_fh
    }

    /// An empty table.
    pub fn new() -> (r: FHandlers<F>)
        ensures
            r.wf(),
            r@ == Map::<u64, F>::empty(),
            r.next_handle() == 0,
    {
        let r = FHandlers { list: Vec::new(), next_fh: 0 };
        assert(r@ =~= Map::<u64, F>::empty());
        r
    }

    /// Every handle in the table lies below the counter.
    pub proof fn lemma_below_counter(&self, fh: u64)
        requires
            self.wf(),
            self@.contains_key(fh),
        ensures
            fh < self.next_handle(),
    {
        let j = choose|j: int| 0 <= j < self.list.len() && self.list@[j].fh == fh;
    }

    fn find(&self, fh: u64) -> (r: Option<usize>)
        requires
            self.wf(),
        ensures
            r matches Some(j) ==> j < self.list.len() && self.list@[j as int].fh == fh,
            r is None ==> !self@.contains_key(fh),
    {
        let mut j: usize = 0;
        while j < self.list.len()
            invariant
                j <= self.list.len(),
                forall|l: int| 0 <= l < j ==> self.list@[l].fh != fh,
            decreases self.list.len() - j,
        {
            if self.list[j].fh == fh {
                return Some(j);
            }
            j = j + 1;
        }
        None
    }

    /// Installs `file` under a fresh handle, the counter's value. `None`, with the file
    /// dropped, when the handles are spent.
    pub fn add(&mut self, file: F) -> (r: Option<u64>)
        requires
            old(self).wf(),
        ensures
            final(self).wf(),
            old(self).next_handle() < u64::MAX ==> {
                &&& r == Some(old(self).next_handle())
                &&& final(self)@ == old(self)@.insert(old(self).next_handle(), file)
                &&& final(self).next_handle() == old(self).next_handle() + 1
            },
            old(self).next_handle() == u64::MAX ==> r is None && final(self)@ == old(self)@
                && final(self).next_handle() == old(self).next_handle(),
    {
        if self.next_fh == u64::MAX {
            return None;
        }
        let fh = self.next_fh;
        let slot = FileSlot { fh, file };
        proof {
            if has_handle(self.list@, fh) {
                let j = choose|j: int| 0 <= j < self.list.len() && self.list@[j].fh == fh;
            }
            lemma_slot_map_push(self.list@, slot);
        }
        let ghost old_list = self.list@;
        self.list.push(slot);
        self.next_fh = fh + 1;
        proof {
            assert forall|j: int| 0 <= j < self.list.len() implies #[trigger] self.list@[j].fh < self.next_fh by {
                if j < old_list.len() {
                    assert(self.list@[j] == old_list[j]);
                }
            }
        }
        Some(fh)
    }

    /// The open file under `fh`, to read or write through.
    pub fn get(&mut self, fh: u64) -> (r: Option<&mut F>)
        requires
            old(self).wf(),
        ensures
            r is Some <==> old(self)@.contains_key(fh),
            r matches Some(f) ==> *f == old(self)@[fh],
            r matches Some(f) ==> final(self)@ == old(self)@.insert(fh, *final(f)),
            final(self).wf(),
            final(self).next_handle() == old(self).next_handle(),
            r is None ==> final(self)@ == old(self)@,
    {
        match self.find(fh) {
            None => None,
            Some(j) => {
                proof {
                    lemma_slot_map_at(self.list@, j as int);
                }
                let slot = &mut self.list[j];
                proof {
                    lemma_slot_map_update(old(self).list@, j as int, final(slot).file);
                }
                Some(&mut slot.file)
            },
        }
    }

    /// Drops the file under `fh` and returns it; the handle is not handed out again.
    pub fn del(&mut self, fh: u64) -> (r: Option<F>)
        requires
            old(self).wf(),
        ensures
            final(self).wf(),
            r is Some <==> old(self)@.contains_key(fh),
            r matches Some(f) ==> f == old(self)@[fh],
            final(self)@ == old(self)@.remove(fh),
            final(self).next_handle() == old(self).next_handle(),
    {
        match self.find(fh) {
            None => {
                assert(self@.remove(fh) =~= self@);
                None
            },
            Some(j) => {
                proof {
                    lemma_slot_map_at(self.list@, j as int);
                    lemma_slot_map_remove(self.list@, j as int);
                }
                let ghost old_list = self.list@;
                let slot = self.list.remove(j);
                proof {
                    assert forall|l: int| 0 <= l < self.list.len() implies #[trigger] self.list@[l].fh < self.next_fh by {
                        let l0 = if l < j { l } else { l + 1 };
                        assert(self.list@[l] == old_list[l0]);
                    }
                }
                Some(slot.file)
            },
        }
    }
}

} // verus!
