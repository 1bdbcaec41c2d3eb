//! A string-keyed table of routing rules. It stands where the gateway keeps
//! a hash map from domain or path to target: keys are unique, a key is
//! looked up by equality, and entries keep the order in which they were
//! first added.
use vstd::prelude::*;
use crate::text::str_eq;

verus! {

/// Keys and values of a table, as character sequences.
pub open spec fn pairs_of(entries: Seq<(String, String)>) -> Seq<(Seq<char>, Seq<char>)> {
    entries.map_values(|e: (String, String)| (e.0@, e.1@))
}

/// No key occurs twice.
pub open spec fn keys_unique(p: Seq<(Seq<char>, Seq<char>)>) -> bool {
    forall|i: int, j: int|
        0 <= i < p.len() && 0 <= j < p.len() && i != j ==> #[trigger] p[i].0 != #[trigger] p[j].0
}

/// Some entry has key `k`.
pub open spec fn has_key(p: Seq<(Seq<char>, Seq<char>)>, k: Seq<char>) -> bool {
    exists|i: int| 0 <= i < p.len() && #[trigger] p[i].0 == k
}

/// The map from keys to values that the entries describe.
pub open spec fn to_map(p: Seq<(Seq<char>, Seq<char>)>) -> Map<Seq<char>, Seq<char>> {
    Map::new(
        |k: Seq<char>| has_key(p, k),
        |k: Seq<char>| p[choose|i: int| 0 <= i < p.len() && #[trigger] p[i].0 == k].1,
    )
}

/// A routing table: a list of (key, value) entries with unique keys.
pub struct RouteTable {
    pub entries: Vec<(String, String)>,
}

impl RouteTable {
    /// The entries as character sequences, in order.
    pub open spec fn pairs(&self) -> Seq<(Seq<char>, Seq<char>)> {
        pairs_of(self.entries@)
    }

    /// Keys are unique.
    pub open spec fn wf(&self) -> bool {
        keys_unique(self.pairs())
    }

    /// The table as a map.
    pub open spec fn map(&self) -> Map<Seq<char>, Seq<char>> {
        to_map(self.pairs())
    }

    /// An empty table.
    pub fn new() -> (r: RouteTable)
        ensures
            r.wf(),
            r.pairs().len() == 0,
            r.map() == Map::<Seq<char>, Seq<char>>::empty(),
    {
        let r = RouteTable { entries: Vec::new() };
        assert(r.map() =~= Map::<Seq<char>, Seq<char>>::empty());
        r
    }

    /// The number of entries.
    pub fn len(&self) -> (n: usize)
        ensures
            n == self.pairs().len(),
    {
        self.entries.len()
    }

    /// Index of the entry with key `key`.
    pub fn find(&self, key: &str) -> (r: Option<usize>)
        ensures
            r matches Some(i) ==> i < self.pairs().len() && self.pairs()[i as int].0 == key@,
            r is None ==> !has_key(self.pairs(), key@),
    {
        let mut i: usize = 0;
        while i < self.entries.len()
            invariant
                i <= self.entries.len(),
                forall|j: int| 0 <= j < i ==> self.pairs()[j].0 != key@,
            decreases self.entries.len() - i,
        {
            if str_eq(self.entries[i].0.as_str(), key) {
                return Some(i);
            }
            i += 1;
        }
        assert forall|j: int| 0 <= j < self.pairs().len() implies #[trigger] self.pairs()[j].0
            != key@ by {
        }
        None
    }

    /// The value stored for `key`, if any.
    pub fn get(&self, key: &str) -> (r: Option<&String>)
        requires
            self.wf(),
        ensures
            r is Some <==> self.map().contains_key(key@),
            r matches Some(v) ==> v@ == self.map()[key@],
    {
        match self.find(key) {
            Some(i) => {
                proof {
                    self.lemma_value_at(i as int);
                }
                Some(&self.entries[i].1)
            },
            None => None,
        }
    }

    /// With unique keys, the value the map gives for the key of entry `i` is
    /// that entry's value.
    pub proof fn lemma_value_at(&self, i: int)
        requires
            self.wf(),
            0 <= i < self.pairs().len(),
        ensures
            self.map().contains_key(self.pairs()[i].0),
            self.map()[self.pairs()[i].0] == self.pairs()[i].1,
    {
        let p = self.pairs();
        let k = p[i].0;
        assert(has_key(p, k));
        let j = choose|j: int| 0 <= j < p.len() && #[trigger] p[j].0 == k;
        assert(j == i);
    }

    /// Sets the value of `key`: an existing entry keeps its place, a new key
    /// is added at the end.
    pub fn insert(&mut self, key: String, value: String)
        requires
            old(self).wf(),
        ensures
            final(self).wf(),
            final(self).map() == old(self).map().insert(key@, value@),
            has_key(old(self).pairs(), key@) ==> final(self).pairs().len() == old(self).pairs().len(),
            !has_key(old(self).pairs(), key@) ==> final(self).pairs() == old(self).pairs().push(
                (key@, value@),
            ),
    {
        let ghost old_p = self.pairs();
        match self.find(key.as_str()) {
            Some(i) => {
                let ghost kv = key@;
                let ghost vv = value@;
                self.entries.set(i, (key, value));
                let ghost new_p = self.pairs();
                assert(new_p =~= old_p.update(i as int, (kv, vv)));
                assert(keys_unique(new_p)) by {
                    assert forall|a: int, b: int|
                        0 <= a < new_p.len() && 0 <= b < new_p.len() && a != b implies #[trigger] new_p[a].0
                        != #[trigger] new_p[b].0 by {
                        assert(new_p[a].0 == old_p[a].0);
                        assert(new_p[b].0 == old_p[b].0);
                    }
                }
                assert(to_map(new_p) =~= to_map(old_p).insert(kv, vv)) by {
                    assert forall|k: Seq<char>| #[trigger] has_key(new_p, k) == (k == kv || has_key(old_p, k)) by {
                        if has_key(old_p, k) {
                            let j = choose|j: int| 0 <= j < old_p.len() && #[trigger] old_p[j].0 == k;
                            assert(new_p[j].0 == k);
                        }
                        if has_key(new_p, k) {
                            let j = choose|j: int| 0 <= j < new_p.len() && #[trigger] new_p[j].0 == k;
                            assert(old_p[j].0 == k);
                        }
                        if k == kv {
                            assert(new_p[i as int].0 == k);
                        }
                    }
                    assert forall|k: Seq<char>| #[trigger] has_key(new_p, k) implies to_map(new_p)[k]
                        == to_map(old_p).insert(kv, vv)[k] by {
                        let j = choose|j: int| 0 <= j < new_p.len() && #[trigger] new_p[j].0 == k;
                        if k == kv {
                            assert(j == i);
                        } else {
                            assert(old_p[j].0 == k);
                            let j2 = choose|j2: int| 0 <= j2 < old_p.len() && #[trigger] old_p[j2].0 == k;
                            assert(j2 == j);
                        }
                    }
                }
            },
            None => {
                let ghost kv = key@;
                let ghost vv = value@;
                self.entries.push((key, value));
                let ghost new_p = self.pairs();
                assert(new_p =~= old_p.push((kv, vv)));
                assert(keys_unique(new_p)) by {
                    assert forall|a: int, b: int|
                        0 <= a < new_p.len() && 0 <= b < new_p.len() && a != b implies #[trigger] new_p[a].0
                        != #[trigger] new_p[b].0 by {
                        if a < old_p.len() && b < old_p.len() {
                        } else if a < old_p.len() {
                            assert(old_p[a].0 != kv);
                        } else {
                            assert(old_p[b].0 != kv);
                        }
                    }
                }
                assert(to_map(new_p) =~= to_map(old_p).insert(kv, vv)) by {
                    assert forall|k: Seq<char>| #[trigger] has_key(new_p, k) == (k == kv || has_key(old_p, k)) by {
                        if has_key(old_p, k) {
                            let j = choose|j: int| 0 <= j < old_p.len() && #[trigger] old_p[j].0 == k;
                            assert(new_p[j].0 == k);
                        }
                        if has_key(new_p, k) {
                            let j = choose|j: int| 0 <= j < new_p.len() && #[trigger] new_p[j].0 == k;
                            if j < old_p.len() {
                                assert(old_p[j].0 == k);
                            }
                        }
                        if k == kv {
                            assert(new_p[old_p.len() as int].0 == k);
                        }
                    }
                    assert forall|k: Seq<char>| #[trigger] has_key(new_p, k) implies to_map(new_p)[k]
                        == to_map(old_p).insert(kv, vv)[k] by {
                        let j = choose|j: int| 0 <= j < new_p.len() && #[trigger] new_p[j].0 == k;
                        if k == kv {
                            assert(new_p[old_p.len() as int].0 == k);
                            assert(j == old_p.len());
                        } else {
                            assert(j < old_p.len());
                            assert(old_p[j].0 == k);
                            let j2 = choose|j2: int| 0 <= j2 < old_p.len() && #[trigger] old_p[j2].0 == k;
                            assert(j2 == j);
                        }
                    }
                }
            },
        }
    }

    /// Removes the entry for `key`, returning its value; the other entries
    /// keep their order.
    pub fn remove(&mut self, key: &str) -> (r: Option<String>)
        requires
            old(self).wf(),
        ensures
            final(self).wf(),
            r is Some <==> old(self).map().contains_key(key@),
            r matches Some(v) ==> v@ == old(self).map()[key@],
            final(self).map() == old(self).map().remove(key@),
    {
        let ghost old_p = self.pairs();
        match self.find(key) {
            Some(i) => {
                proof {
                    self.lemma_value_at(i as int);
                }
                let (_, v) = self.entries.remove(i);
                let ghost new_p = self.pairs();
                assert(new_p =~= old_p.remove(i as int));
                assert(keys_unique(new_p)) by {
                    assert forall|a: int, b: int|
                        0 <= a < new_p.len() && 0 <= b < new_p.len() && a != b implies #[trigger] new_p[a].0
                        != #[trigger] new_p[b].0 by {
                        let a2 = if a < i { a } else { a + 1 };
                        let b2 = if b < i { b } else { b + 1 };
                        assert(new_p[a] == old_p[a2]);
                        assert(new_p[b] == old_p[b2]);
                    }
                }
                assert(to_map(new_p) =~= to_map(old_p).remove(key@)) by {
                    assert forall|k: Seq<char>| #[trigger] has_key(new_p, k) == (k != key@ && has_key(old_p, k)) by {
                        if has_key(new_p, k) {
                            let j = choose|j: int| 0 <= j < new_p.len() && #[trigger] new_p[j].0 == k;
                            let j2 = if j < i { j } else { j + 1 };
                            assert(new_p[j] == old_p[j2]);
                            assert(old_p[j2].0 == k);
                        }
                        if k != key@ && has_key(old_p, k) {
                            let j = choose|j: int| 0 <= j < old_p.len() && #[trigger] old_p[j].0 == k;
                            assert(j != i);
                            let j2 = if j < i { j } else { j - 1 };
                            assert(new_p[j2] == old_p[j]);
                        }
                    }
                    assert forall|k: Seq<char>| #[trigger] has_key(new_p, k) implies to_map(new_p)[k]
                        == to_map(old_p)[k] by {
                        let j = choose|j: int| 0 <= j < new_p.len() && #[trigger] new_p[j].0 == k;
                        let j2 = if j < i { j } else { j + 1 };
                        assert(new_p[j] == old_p[j2]);
                        let j3 = choose|j3: int| 0 <= j3 < old_p.len() && #[trigger] old_p[j3].0 == k;
                        assert(j3 == j2);
                    }
                }
                Some(v)
            },
            None => {
                assert(to_map(old_p) =~= to_map(old_p).remove(key@));
                None
            },
        }
    }

    /// The keys in entry order.
    pub fn keys(&self) -> (r: Vec<String>)
        ensures
            r@.len() == self.pairs().len(),
            forall|i: int| 0 <= i < r@.len() ==> #[trigger] r@[i]@ == self.pairs()[i].0,
    {
        let mut out: Vec<String> = Vec::new();
        let mut i: usize = 0;
        while i < self.entries.len()
            invariant
                i <= self.entries.len(),
                out@.len() == i,
                forall|j: int| 0 <= j < i ==> #[trigger] out@[j]@ == self.pairs()[j].0,
            decreases self.entries.len() - i,
        {
            out.push(self.entries[i].0.clone());
            i += 1;
        }
        out
    }
}

} // verus!
