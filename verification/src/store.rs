use vstd::prelude::*;
use crate::note::{Note, NoteView};
use crate::owner::OwnerId;

verus! {

/// One stored note together with the key it is filed under.
struct StoreEntry {
    owner: OwnerId,
    id: u64,
    note: Note,
}

/// The owner-scoped note store: at most one note per `(owner, id)` key.
/// Its mathematical value is a map from keys to note values; the order in
/// which entries are held is not part of the contract.
pub struct NoteStore {
    entries: Vec<StoreEntry>,
}

spec fn entry_key(e: StoreEntry) -> (Seq<u8>, u64) {
    (e.owner@, e.id)
}

spec fn has_key(s: Seq<StoreEntry>, k: (Seq<u8>, u64)) -> bool {
    exists|i: int| 0 <= i < s.len() && entry_key(s[i]) == k
}

spec fn index_of(s: Seq<StoreEntry>, k: (Seq<u8>, u64)) -> int {
    choose|i: int| 0 <= i < s.len() && entry_key(s[i]) == k
}

spec fn seq_map(s: Seq<StoreEntry>) -> Map<(Seq<u8>, u64), NoteView> {
    Map::new(
        |k: (Seq<u8>, u64)| has_key(s, k),
        |k: (Seq<u8>, u64)| s[index_of(s, k)].note@,
    )
}

spec fn wf_entries(s: Seq<StoreEntry>) -> bool {
    forall|i: int, j: int|
        0 <= i < j < s.len() ==> entry_key(s[i]) != entry_key(s[j])
}

/// Under well-formedness every key names exactly one entry, so the chosen
/// index of an entry's key is that entry's own position.
proof fn lemma_unique_index(s: Seq<StoreEntry>, i: int)
    requires
        wf_entries(s),
        0 <= i < s.len(),
    ensures
        has_key(s, entry_key(s[i])),
        index_of(s, entry_key(s[i])) == i,
{
    let k = entry_key(s[i]);
    assert(0 <= i < s.len() && entry_key(s[i]) == k);
    assert(has_key(s, k));
    let j = index_of(s, k);
    assert(0 <= j < s.len() && entry_key(s[j]) == k);
    if j < i {
        assert(entry_key(s[j]) != entry_key(s[i]));
    } else if i < j {
        assert(entry_key(s[i]) != entry_key(s[j]));
    }
}

impl View for NoteStore {
    type V = Map<(Seq<u8>, u64), NoteView>;

    closed spec fn view(&self) -> Map<(Seq<u8>, u64), NoteView> {
        seq_map(self.entries@)
    }
}

impl NoteStore {
    /// Well-formedness: no two entries share a key. Constructors establish
    /// it and every method preserves it.
    pub closed spec fn inv(&self) -> bool {
        wf_entries(self.entries@)
    }

    /// An empty store.
    pub fn new() -> (r: NoteStore)
        ensures
            r.inv(),
            r@ == Map::<(Seq<u8>, u64), NoteView>::empty(),
    {
        let r = NoteStore { entries: Vec::new() };
        proof {
            assert(r@ =~= Map::<(Seq<u8>, u64), NoteView>::empty());
        }
        r
    }

    /// The position of the entry keyed `(owner, id)`, if one exists.
    fn find_index(&self, owner: &OwnerId, id: u64) -> (r: Option<usize>)
        ensures
            match r {
                Some(i) => i < self.entries@.len() && entry_key(self.entries@[i as int])
                    == (owner@, id),
                None => !has_key(self.entries@, (owner@, id)),
            },
    {
        let n = self.entries.len();
        for i in 0..n
            invariant
                n == self.entries@.len(),
                forall|t: int| 0 <= t < i ==> entry_key(self.entries@[t]) != (owner@, id),
        {
            let e = &self.entries[i];
            if e.id == id && e.owner.same_owner(owner) {
                return Some(i);
            }
        }
        None
    }

    /// Whether the caller already stores a note under `id`.
    pub fn contains(&self, owner: &OwnerId, id: u64) -> (r: bool)
        requires
            self.inv(),
        ensures
            r == self@.contains_key((owner@, id)),
    {
        match self.find_index(owner, id) {
            Some(i) => {
                proof {
                    lemma_unique_index(self.entries@, i as int);
                }
                true
            },
            None => false,
        }
    }

    /// The note stored under `(owner, id)`, if any.
    pub fn get(&self, owner: &OwnerId, id: u64) -> (r: Option<&Note>)
        requires
            self.inv(),
        ensures
            match r {
                Some(n) => self@.contains_key((owner@, id)) && n@ == self@[(owner@, id)],
                None => !self@.contains_key((owner@, id)),
            },
    {
        match self.find_index(owner, id) {
            Some(i) => {
                proof {
                    lemma_unique_index(self.entries@, i as int);
                }
                Some(&self.entries[i].note)
            },
            None => None,
        }
    }

    /// Inserts, or overwrites, the note under `(owner, id)`.
    pub fn put(&mut self, owner: OwnerId, id: u64, note: Note)
        requires
            old(self).inv(),
        ensures
            final(self).inv(),
            final(self)@ == old(self)@.insert((owner@, id), note@),
    {
        let ghost s0 = self.entries@;
        let ghost k0 = (owner@, id);
        match self.find_index(&owner, id) {
            Some(i) => {
                self.entries[i].note = note;
                proof {
                    let s1 = self.entries@;
                    assert(s1 =~= s0.update(i as int, s1[i as int]));
                    assert(entry_key(s1[i as int]) == k0);
                    assert forall|a: int, b: int| 0 <= a < b < s1.len() implies entry_key(s1[a])
                        != entry_key(s1[b]) by {
                        assert(entry_key(s1[a]) == entry_key(s0[a]));
                        assert(entry_key(s1[b]) == entry_key(s0[b]));
                    }
                    assert forall|k: (Seq<u8>, u64)| has_key(s1, k) == has_key(s0, k) by {
                        if has_key(s1, k) {
                            let t = choose|t: int| 0 <= t < s1.len() && entry_key(s1[t]) == k;
                            assert(entry_key(s0[t]) == k);
                            assert(has_key(s0, k));
                        }
                        if has_key(s0, k) {
                            let t = choose|t: int| 0 <= t < s0.len() && entry_key(s0[t]) == k;
                            assert(entry_key(s1[t]) == k);
                            assert(has_key(s1, k));
                        }
                    }
                    assert forall|k: (Seq<u8>, u64)| #[trigger] seq_map(s1).contains_key(k)
                        implies seq_map(s1)[k] == seq_map(s0).insert(k0, note@)[k] by {
                        let t = choose|t: int| 0 <= t < s1.len() && entry_key(s1[t]) == k;
                        lemma_unique_index(s1, t);
                        if k == k0 {
                            lemma_unique_index(s1, i as int);
                        } else {
                            assert(t != i);
                            assert(entry_key(s0[t]) == k);
                            lemma_unique_index(s0, t);
                        }
                    }
                    assert(seq_map(s1) =~= seq_map(s0).insert(k0, note@));
                }
            },
            None => {
                self.entries.push(StoreEntry { owner, id, note });
                proof {
                    let s1 = self.entries@;
                    let n = s0.len() as int;
                    assert(s1 == s0.push(s1[n]));
                    assert(entry_key(s1[n]) == k0);
                    assert forall|a: int, b: int| 0 <= a < b < s1.len() implies entry_key(s1[a])
                        != entry_key(s1[b]) by {
                        if b < n {
                            assert(entry_key(s1[a]) == entry_key(s0[a]));
                            assert(entry_key(s1[b]) == entry_key(s0[b]));
                        } else {
                            assert(b == n);
                            assert(entry_key(s1[a]) == entry_key(s0[a]));
                            assert(0 <= a < s0.len() && entry_key(s0[a]) == entry_key(s0[a]));
                            assert(has_key(s0, entry_key(s0[a])));
                        }
                    }
                    assert forall|k: (Seq<u8>, u64)| #[trigger] seq_map(s1).contains_key(k)
                        implies seq_map(s0).insert(k0, note@).contains_key(k) && seq_map(s1)[k]
                        == seq_map(s0).insert(k0, note@)[k] by {
                        let t = choose|t: int| 0 <= t < s1.len() && entry_key(s1[t]) == k;
                        lemma_unique_index(s1, t);
                        if t == n {
                            lemma_unique_index(s1, n);
                        } else {
                            assert(entry_key(s0[t]) == k);
                            assert(has_key(s0, k));
                            lemma_unique_index(s0, t);
                        }
                    }
                    assert forall|k: (Seq<u8>, u64)| #[trigger] seq_map(s0).insert(
                        k0,
                        note@,
                    ).contains_key(k) implies seq_map(s1).contains_key(k) by {
                        if k == k0 {
                            lemma_unique_index(s1, n);
                        } else {
                            let t = choose|t: int| 0 <= t < s0.len() && entry_key(s0[t]) == k;
                            assert(entry_key(s1[t]) == k);
                            assert(has_key(s1, k));
                        }
                    }
                    assert(seq_map(s1) =~= seq_map(s0).insert(k0, note@));
                }
            },
        }
    }

    /// Removes the note under `(owner, id)`; reports whether one existed.
    pub fn remove(&mut self, owner: &OwnerId, id: u64) -> (r: bool)
        requires
            old(self).inv(),
        ensures
            final(self).inv(),
            final(self)@ == old(self)@.remove((owner@, id)),
            r == old(self)@.contains_key((owner@, id)),
    {
        let ghost s0 = self.entries@;
        let ghost k0 = (owner@, id);
        match self.find_index(owner, id) {
            Some(i) => {
                proof {
                    lemma_unique_index(s0, i as int);
                }
                self.entries.remove(i);
                proof {
                    let s1 = self.entries@;
                    let ii = i as int;
                    assert(s1 == s0.remove(ii));
                    assert forall|a: int, b: int| 0 <= a < b < s1.len() implies entry_key(s1[a])
                        != entry_key(s1[b]) by {
                        let a0 = if a < ii { a } else { a + 1 };
                        let b0 = if b < ii { b } else { b + 1 };
                        assert(entry_key(s1[a]) == entry_key(s0[a0]));
                        assert(entry_key(s1[b]) == entry_key(s0[b0]));
                    }
                    assert forall|k: (Seq<u8>, u64)| #[trigger] seq_map(s1).contains_key(k)
                        implies seq_map(s0).remove(k0).contains_key(k) && seq_map(s1)[k]
                        == seq_map(s0).remove(k0)[k] by {
                        let t = choose|t: int| 0 <= t < s1.len() && entry_key(s1[t]) == k;
                        lemma_unique_index(s1, t);
                        let t0 = if t < ii { t } else { t + 1 };
                        assert(entry_key(s0[t0]) == k);
                        assert(t0 != ii);
                        lemma_unique_index(s0, t0);
                        lemma_unique_index(s0, ii);
                        assert(k != k0);
                        assert(has_key(s0, k));
                    }
                    assert forall|k: (Seq<u8>, u64)| #[trigger] seq_map(s0).remove(
                        k0,
                    ).contains_key(k) implies seq_map(s1).contains_key(k) by {
                        let t0 = choose|t: int| 0 <= t < s0.len() && entry_key(s0[t]) == k;
                        lemma_unique_index(s0, t0);
                        assert(t0 != ii);
                        let t = if t0 < ii { t0 } else { t0 - 1 };
                        assert(entry_key(s1[t]) == k);
                        assert(has_key(s1, k));
                    }
                    assert(seq_map(s1) =~= seq_map(s0).remove(k0));
                }
                true
            },
            None => {
                proof {
                    assert(!seq_map(s0).contains_key(k0));
                    assert(seq_map(s0) =~= seq_map(s0).remove(k0));
                }
                false
            },
        }
    }

    /// Every note the caller owns, as `(id, note)` pairs in
    /// implementation-defined order. Entries of other owners never appear.
    #[verifier::rlimit(60)]
    pub fn list_for(&self, owner: &OwnerId) -> (r: Vec<(u64, Note)>)
        requires
            self.inv(),
        ensures
            forall|j: int| 0 <= j < r@.len() ==> self@.contains_key((owner@, (#[trigger] r@[j]).0))
                && r@[j].1@ == self@[(owner@, r@[j].0)],
            forall|id: u64| self@.contains_key((owner@, id)) ==> exists|j: int|
                0 <= j < r@.len() && (#[trigger] r@[j]).0 == id,
            forall|j1: int, j2: int| 0 <= j1 < j2 < r@.len() ==> (#[trigger] r@[j1]).0 != (
            #[trigger] r@[j2]).0,
    {
        let mut out: Vec<(u64, Note)> = Vec::new();
        let n = self.entries.len();
        let ghost s = self.entries@;
        let mut i: usize = 0;
        while i < n
            invariant
                i <= n,
                self.inv(),
                n == s.len(),
                s == self.entries@,
                forall|j: int| 0 <= j < out@.len() ==> exists|t: int|
                    0 <= t < i && entry_key(#[trigger] s[t]) == (owner@, (#[trigger] out@[j]).0)
                        && out@[j].1@ == s[t].note@,
                forall|t: int| 0 <= t < i && (#[trigger] s[t]).owner@ == owner@ ==> exists|j: int|
                    0 <= j < out@.len() && (#[trigger] out@[j]).0 == s[t].id,
                forall|j1: int, j2: int| 0 <= j1 < j2 < out@.len() ==> (#[trigger] out@[j1]).0 != (
                #[trigger] out@[j2]).0,
            decreases n - i,
        {
            let e = &self.entries[i];
            let ghost ii = i as int;
            if e.owner.same_owner(owner) {
                proof {
                    assert forall|j: int| 0 <= j < out@.len() implies (#[trigger] out@[j]).0
                        != s[ii].id by {
                        let t = choose|t: int|
                            0 <= t < i && entry_key(s[t]) == (owner@, out@[j].0) && out@[j].1@
                                == s[t].note@;
                        assert(entry_key(s[t]) != entry_key(s[ii]));
                    }
                }
                let ghost out_old = out@;
                out.push((e.id, e.note.duplicate()));
                proof {
                    let m = out_old.len() as int;
                    assert(out@ == out_old.push(out@[m]));
                    assert(out@[m].0 == s[ii].id && out@[m].1@ == s[ii].note@);
                    assert(entry_key(s[ii]) == (owner@, out@[m].0));
                    assert forall|j: int| 0 <= j < out@.len() implies exists|t: int|
                        0 <= t < ii + 1 && entry_key(#[trigger] s[t]) == (
                        owner@,
                        (#[trigger] out@[j]).0,
                    ) && out@[j].1@ == s[t].note@ by {
                        if j < m {
                            assert(out@[j] == out_old[j]);
                            let t = choose|t: int|
                                0 <= t < ii && entry_key(s[t]) == (owner@, out_old[j].0)
                                    && out_old[j].1@ == s[t].note@;
                            assert(0 <= t < ii + 1 && entry_key(s[t]) == (owner@, out@[j].0)
                                && out@[j].1@ == s[t].note@);
                        } else {
                            assert(0 <= ii < ii + 1 && entry_key(s[ii]) == (owner@, out@[j].0)
                                && out@[j].1@ == s[ii].note@);
                        }
                    }
                    assert forall|t: int|
                        0 <= t < ii + 1 && (#[trigger] s[t]).owner@ == owner@ implies exists|
                        j: int,
                    |
                        0 <= j < out@.len() && (#[trigger] out@[j]).0 == s[t].id by {
                        if t < ii {
                            let j = choose|j: int|
                                0 <= j < out_old.len() && (#[trigger] out_old[j]).0 == s[t].id;
                            assert(out@[j] == out_old[j]);
                            assert(0 <= j < out@.len() && out@[j].0 == s[t].id);
                        } else {
                            assert(0 <= m < out@.len() && out@[m].0 == s[t].id);
                        }
                    }
                }
            } else {
                proof {
                    assert(s[ii].owner@ != owner@);
                }
            }
            i += 1;
        }
        proof {
            assert forall|j: int| 0 <= j < out@.len() implies self@.contains_key(
                (owner@, (#[trigger] out@[j]).0),
            ) && out@[j].1@ == self@[(owner@, out@[j].0)] by {
                let t = choose|t: int|
                    0 <= t < n && entry_key(s[t]) == (owner@, out@[j].0) && out@[j].1@
                        == s[t].note@;
                lemma_unique_index(s, t);
            }
            assert forall|id: u64| self@.contains_key((owner@, id)) implies exists|j: int|
                0 <= j < out@.len() && (#[trigger] out@[j]).0 == id by {
                let t = choose|t: int| 0 <= t < s.len() && entry_key(s[t]) == ((owner@, id));
                assert(s[t].owner@ == owner@);
                assert(s[t].id == id);
            }
        }
        out
    }

    /// How many notes the store holds in all, over all owners.
    pub fn len(&self) -> (r: usize)
        requires
            self.inv(),
        ensures
            r == self@.dom().len(),
    {
        proof {
            lemma_dom_len(self.entries@);
        }
        self.entries.len()
    }
}

/// Under well-formedness the store's map has exactly one key per entry.
proof fn lemma_dom_len(s: Seq<StoreEntry>)
    requires
        wf_entries(s),
    ensures
        seq_map(s).dom().finite(),
        seq_map(s).dom().len() == s.len(),
    decreases s.len(),
{
    if s.len() == 0 {
        assert(seq_map(s).dom() =~= Set::<(Seq<u8>, u64)>::empty());
    } else {
        let s0 = s.drop_last();
        let e = s.last();
        assert forall|a: int, b: int| 0 <= a < b < s0.len() implies entry_key(s0[a])
            != entry_key(s0[b]) by {
            assert(entry_key(s0[a]) == entry_key(s[a]));
            assert(entry_key(s0[b]) == entry_key(s[b]));
        }
        lemma_dom_len(s0);
        assert forall|k: (Seq<u8>, u64)| has_key(s, k) implies has_key(s0, k) || k == entry_key(
            e,
        ) by {
            let t = choose|t: int| 0 <= t < s.len() && entry_key(s[t]) == k;
            if t < s.len() - 1 {
                assert(entry_key(s0[t]) == k);
            }
        }
        assert forall|k: (Seq<u8>, u64)| has_key(s0, k) implies has_key(s, k) by {
            let t = choose|t: int| 0 <= t < s0.len() && entry_key(s0[t]) == k;
            assert(entry_key(s[t]) == k);
        }
        assert(0 <= s.len() - 1 < s.len());
        assert(has_key(s, entry_key(e)));
        assert(seq_map(s).dom() =~= seq_map(s0).dom().insert(entry_key(e)));
        assert(!has_key(s0, entry_key(e))) by {
            if has_key(s0, entry_key(e)) {
                let t = choose|t: int| 0 <= t < s0.len() && entry_key(s0[t]) == entry_key(e);
                assert(entry_key(s[t]) == entry_key(s[s.len() - 1]));
            }
        }
        assert(!seq_map(s0).dom().contains(entry_key(e)));
    }
}

} // verus!
