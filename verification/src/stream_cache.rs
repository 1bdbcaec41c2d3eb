//! The stream booster's cache of HLS segments: each segment is kept by its
//! URL with the time it was stored, and a periodic sweep drops the segments
//! older than [`SEGMENT_TTL_MS`]. Times are milliseconds on a monotonic
//! clock read by the caller.
use vstd::prelude::*;
use crate::text::str_eq;

verus! {

/// How long a stored segment is kept, in milliseconds.
pub const SEGMENT_TTL_MS: u64 = 45_000;

/// How often the cache is swept, in milliseconds.
pub const SWEEP_INTERVAL_MS: u64 = 15_000;

/// A stored segment.
pub struct CachedSegment {
    pub uri: String,
    pub data: Vec<u8>,
    pub stored_at: u64,
}

/// The cache: one entry per URL.
pub struct StreamBufferCache {
    pub segments: Vec<CachedSegment>,
}

/// A segment read as plain values.
pub open spec fn segment_view(s: CachedSegment) -> (Seq<char>, Seq<u8>, u64) {
    (s.uri@, s.data@, s.stored_at)
}

impl StreamBufferCache {
    /// The segments as plain values, in storage order.
    pub open spec fn entries(&self) -> Seq<(Seq<char>, Seq<u8>, u64)> {
        self.segments@.map_values(|s: CachedSegment| segment_view(s))
    }

    /// No URL is stored twice.
    pub open spec fn wf(&self) -> bool {
        forall|i: int, j: int|
            0 <= i < self.entries().len() && 0 <= j < self.entries().len() && i != j
                ==> #[trigger] self.entries()[i].0 != #[trigger] self.entries()[j].0
    }

    /// The index of the entry for `uri`.
    pub open spec fn index_of(&self, uri: Seq<char>) -> Option<int> {
        if exists|i: int| 0 <= i < self.entries().len() && #[trigger] self.entries()[i].0 == uri {
            Some(choose|i: int| 0 <= i < self.entries().len() && #[trigger] self.entries()[i].0 == uri)
        } else {
            None
        }
    }

    /// The data stored for `uri`.
    pub open spec fn lookup(&self, uri: Seq<char>) -> Option<Seq<u8>> {
        match self.index_of(uri) {
            Some(i) => Some(self.entries()[i].1),
            None => None,
        }
    }

    /// An empty cache.
    pub fn new() -> (r: StreamBufferCache)
        ensures
            r.wf(),
            r.entries().len() == 0,
    {
        StreamBufferCache { segments: Vec::new() }
    }

    /// The index of the entry for `uri`, found.
    fn find(&self, uri: &str) -> (r: Option<usize>)
        requires
            self.wf(),
        ensures
            match r {
                Some(i) => self.index_of(uri@) == Some(i as int),
                None => self.index_of(uri@) is None,
            },
    {
        let mut i: usize = 0;
        while i < self.segments.len()
            invariant
                self.wf(),
                i <= self.segments.len(),
                forall|j: int| 0 <= j < i ==> #[trigger] self.entries()[j].0 != uri@,
            decreases self.segments.len() - i,
        {
            if str_eq(self.segments[i].uri.as_str(), uri) {
                proof {
                    assert(self.entries()[i as int].0 == uri@);
                    let c = choose|k: int| 0 <= k < self.entries().len() && #[trigger] self.entries()[k].0 == uri@;
                    assert(c == i);
                }
                return Some(i);
            }
            i += 1;
        }
        None
    }

    /// The segment stored for `uri`, if any.
    pub fn get(&self, uri: &str) -> (r: Option<Vec<u8>>)
        requires
            self.wf(),
        ensures
            match r {
                Some(d) => self.lookup(uri@) == Some(d@),
                None => self.lookup(uri@) is None,
            },
    {
        match self.find(uri) {
            Some(i) => Some(self.segments[i].data.clone()),
            None => None,
        }
    }

    /// Stores a segment for `uri` at time `now`, replacing an older one.
    pub fn insert(&mut self, uri: String, data: Vec<u8>, now: u64)
        requires
            old(self).wf(),
        ensures
            final(self).wf(),
            final(self).lookup(uri@) == Some(data@),
            forall|u: Seq<char>| u != uri@ ==> #[trigger] final(self).lookup(u) == old(self).lookup(u),
            final(self).index_of(uri@) matches Some(i) && final(self).entries()[i].2 == now,
    {
        let ghost old_e = self.entries();
        let ghost key = uri@;
        let ghost value = data@;
        match self.find(uri.as_str()) {
            Some(i) => {
                self.segments.set(i, CachedSegment { uri, data, stored_at: now });
                proof {
                    assert(self.entries() =~= old_e.update(i as int, (key, value, now)));
                    assert forall|a: int, b: int|
                        0 <= a < self.entries().len() && 0 <= b < self.entries().len() && a != b
                            implies #[trigger] self.entries()[a].0 != #[trigger] self.entries()[b].0 by {
                        assert(old_e[a].0 != old_e[b].0);
                    }
                    assert(self.entries()[i as int].0 == key);
                    let c = choose|k: int| 0 <= k < self.entries().len() && #[trigger] self.entries()[k].0 == key;
                    assert(c == i);
                    assert forall|u: Seq<char>| u != key implies #[trigger] self.lookup(u) == old(self).lookup(u) by {
                        self.lemma_index_same(old_e, u, i as int);
                    }
                }
            },
            None => {
                self.segments.push(CachedSegment { uri, data, stored_at: now });
                proof {
                    assert(self.entries() =~= old_e.push((key, value, now)));
                    let n = old_e.len() as int;
                    assert(self.entries()[n].0 == key);
                    let c = choose|k: int| 0 <= k < self.entries().len() && #[trigger] self.entries()[k].0 == key;
                    if c != n {
                        assert(old_e[c].0 == key);
                    }
                    assert forall|u: Seq<char>| u != key implies #[trigger] self.lookup(u) == old(self).lookup(u) by {
                        if exists|k: int| 0 <= k < old_e.len() && #[trigger] old_e[k].0 == u {
                            let k = choose|k: int| 0 <= k < old_e.len() && #[trigger] old_e[k].0 == u;
                            assert(self.entries()[k].0 == u);
                            let c2 = choose|k2: int| 0 <= k2 < self.entries().len() && #[trigger] self.entries()[k2].0 == u;
                            if c2 != k {
                                if c2 == n {
                                    assert(self.entries()[n].0 == key);
                                } else {
                                    assert(old_e[c2].0 == u);
                                }
                            }
                        } else {
                            assert forall|k: int| 0 <= k < self.entries().len() implies #[trigger] self.entries()[k].0 != u by {
                                if k < n {
                                    assert(self.entries()[k] == old_e[k]);
                                }
                            }
                        }
                    }
                }
            },
        }
    }

    /// With an entry replaced in place, every other URL is found at the same
    /// place with the same data.
    proof fn lemma_index_same(&self, old_e: Seq<(Seq<char>, Seq<u8>, u64)>, u: Seq<char>, i: int)
        requires
            self.wf(),
            self.entries().len() == old_e.len(),
            0 <= i < old_e.len(),
            self.entries()[i].0 == old_e[i].0,
            u != old_e[i].0,
            forall|k: int| 0 <= k < old_e.len() && k != i ==> #[trigger] self.entries()[k] == old_e[k],
            forall|a: int, b: int|
                0 <= a < old_e.len() && 0 <= b < old_e.len() && a != b ==> #[trigger] old_e[a].0
                    != #[trigger] old_e[b].0,
        ensures
            match (self.index_of(u), index_in(old_e, u)) {
                (Some(a), Some(b)) => a == b && self.entries()[a].1 == old_e[b].1,
                (None, None) => true,
                _ => false,
            },
    {
        if exists|k: int| 0 <= k < old_e.len() && #[trigger] old_e[k].0 == u {
            let k = choose|k: int| 0 <= k < old_e.len() && #[trigger] old_e[k].0 == u;
            assert(self.entries()[k].0 == u);
            assert(k != i);
            assert(self.entries()[k] == old_e[k]);
            let c = choose|k2: int| 0 <= k2 < self.entries().len() && #[trigger] self.entries()[k2].0 == u;
            assert(self.entries()[c].0 == u);
            assert(c == k);
            assert(index_in(old_e, u) == Some(k));
            assert(self.index_of(u) == Some(c));
        } else {
            assert forall|k: int| 0 <= k < self.entries().len() implies #[trigger] self.entries()[k].0 != u by {
                if k != i {
                    assert(self.entries()[k] == old_e[k]);
                }
            }
        }
    }

    /// Drops the segments stored [`SEGMENT_TTL_MS`] or more before `now`;
    /// the others keep their order.
    pub fn sweep(&mut self, now: u64)
        requires
            old(self).wf(),
        ensures
            final(self).wf(),
            final(self).entries() == fresh_segments(old(self).entries(), now),
    {
        let ghost old_e = self.entries();
        let mut kept: Vec<CachedSegment> = Vec::new();
        let mut old_segments: Vec<CachedSegment> = Vec::new();
        std::mem::swap(&mut old_segments, &mut self.segments);
        assert(old_segments@.map_values(|s: CachedSegment| segment_view(s)) == old_e);
        let mut k: usize = 0;
        let n = old_segments.len();
        let mut rest = old_segments;
        while k < n
            invariant
                n == old_e.len(),
                k <= n,
                rest.len() == n - k,
                forall|j: int| 0 <= j < rest.len() ==> segment_view(#[trigger] rest@[j]) == old_e[k + j],
                kept@.map_values(|s: CachedSegment| segment_view(s)) == fresh_segments(old_e.take(k as int), now),
            decreases n - k,
        {
            let seg = rest.remove(0);
            proof {
                assert(segment_view(seg) == old_e[k as int]);
                assert(old_e.take(k + 1).drop_last() =~= old_e.take(k as int));
                assert(old_e.take(k + 1).last() == old_e[k as int]);
                reveal(Seq::filter);
            }
            if now < seg.stored_at || now - seg.stored_at < SEGMENT_TTL_MS {
                let ghost before = kept@;
                kept.push(seg);
                proof {
                    assert(kept@.map_values(|s: CachedSegment| segment_view(s)) =~= before.map_values(
                        |s: CachedSegment| segment_view(s),
                    ).push(old_e[k as int]));
                }
            }
            k += 1;
        }
        assert(old_e.take(n as int) =~= old_e);
        self.segments = kept;
        proof {
            lemma_filter_keeps_unique(old_e, now);
        }
    }
}

/// The index of the entry for `uri` among plain entries.
pub open spec fn index_in(e: Seq<(Seq<char>, Seq<u8>, u64)>, uri: Seq<char>) -> Option<int> {
    if exists|i: int| 0 <= i < e.len() && #[trigger] e[i].0 == uri {
        Some(choose|i: int| 0 <= i < e.len() && #[trigger] e[i].0 == uri)
    } else {
        None
    }
}

/// A segment stored at `stored_at` is still kept at `now`: less than
/// [`SEGMENT_TTL_MS`] has passed (a clock read before the store counts as
/// no time).
pub open spec fn fresh_at(stored_at: u64, now: u64) -> bool {
    now < stored_at || now - stored_at < SEGMENT_TTL_MS
}

/// The entries a sweep at `now` keeps, in order.
pub open spec fn fresh_segments(e: Seq<(Seq<char>, Seq<u8>, u64)>, now: u64) -> Seq<(Seq<char>, Seq<u8>, u64)> {
    e.filter(|x: (Seq<char>, Seq<u8>, u64)| fresh_at(x.2, now))
}

/// What a sweep keeps was in the cache.
proof fn lemma_fresh_contained(e: Seq<(Seq<char>, Seq<u8>, u64)>, now: u64)
    ensures
        forall|k: int|
            0 <= k < fresh_segments(e, now).len() ==> exists|m: int|
                0 <= m < e.len() && e[m] == #[trigger] fresh_segments(e, now)[k],
    decreases e.len(),
{
    reveal(Seq::filter);
    if e.len() > 0 {
        let rest = e.drop_last();
        lemma_fresh_contained(rest, now);
        let fr = fresh_segments(rest, now);
        let fe = fresh_segments(e, now);
        if fresh_at(e.last().2, now) {
            assert(fe == fr.push(e.last()));
        } else {
            assert(fe == fr);
        }
        assert forall|k: int| 0 <= k < fe.len() implies exists|m: int|
            0 <= m < e.len() && e[m] == #[trigger] fe[k] by {
            if k < fr.len() {
                assert(fe[k] == fr[k]);
                let m = choose|m: int| 0 <= m < rest.len() && rest[m] == #[trigger] fr[k];
                assert(e[m] == rest[m]);
            } else {
                assert(e[e.len() - 1] == fe[k]);
            }
        }
    }
}

/// Filtering keeps URLs unique.
proof fn lemma_filter_keeps_unique(e: Seq<(Seq<char>, Seq<u8>, u64)>, now: u64)
    requires
        forall|i: int, j: int|
            0 <= i < e.len() && 0 <= j < e.len() && i != j ==> #[trigger] e[i].0 != #[trigger] e[j].0,
    ensures
        forall|i: int, j: int|
            0 <= i < fresh_segments(e, now).len() && 0 <= j < fresh_segments(e, now).len() && i != j
                ==> #[trigger] fresh_segments(e, now)[i].0 != #[trigger] fresh_segments(e, now)[j].0,
    decreases e.len(),
{
    reveal(Seq::filter);
    if e.len() > 0 {
        let rest = e.drop_last();
        assert forall|i: int, j: int|
            0 <= i < rest.len() && 0 <= j < rest.len() && i != j implies #[trigger] rest[i].0
                != #[trigger] rest[j].0 by {
            assert(rest[i] == e[i]);
            assert(rest[j] == e[j]);
        }
        lemma_filter_keeps_unique(rest, now);
        lemma_fresh_contained(rest, now);
        let fr = fresh_segments(rest, now);
        let fe = fresh_segments(e, now);
        if fresh_at(e.last().2, now) {
            assert(fe == fr.push(e.last()));
            assert forall|i: int, j: int|
                0 <= i < fe.len() && 0 <= j < fe.len() && i != j implies #[trigger] fe[i].0
                    != #[trigger] fe[j].0 by {
                if i == fe.len() - 1 || j == fe.len() - 1 {
                    let k = if i == fe.len() - 1 { j } else { i };
                    assert(fe[k] == fr[k]);
                    let m = choose|m: int| 0 <= m < rest.len() && rest[m] == #[trigger] fr[k];
                    assert(e[m] == rest[m]);
                    assert(e[e.len() - 1] == e.last());
                    assert(e[m].0 != e[e.len() - 1].0);
                } else {
                    assert(fe[i] == fr[i]);
                    assert(fe[j] == fr[j]);
                }
            }
        } else {
            assert(fe == fr);
        }
    }
}

/// Law: a segment stored is served until it is swept, and the sweep keeps
/// exactly the segments younger than [`SEGMENT_TTL_MS`].
pub proof fn law_sweep_keeps_fresh(e: Seq<(Seq<char>, Seq<u8>, u64)>, now: u64)
    ensures
        forall|x: (Seq<char>, Seq<u8>, u64)|
            #[trigger] fresh_segments(e, now).contains(x) <==> (e.contains(x) && fresh_at(x.2, now)),
{
    assert forall|x: (Seq<char>, Seq<u8>, u64)|
        #[trigger] fresh_segments(e, now).contains(x) <==> (e.contains(x) && fresh_at(x.2, now)) by {
        let f = |y: (Seq<char>, Seq<u8>, u64)| fresh_at(y.2, now);
        if e.filter(f).contains(x) {
            e.lemma_filter_contains_rev(f, x);
            let k = choose|k: int| 0 <= k < e.filter(f).len() && e.filter(f)[k] == x;
            e.lemma_filter_pred(f, k);
        }
        if e.contains(x) && fresh_at(x.2, now) {
            let i = choose|i: int| 0 <= i < e.len() && e[i] == x;
            e.lemma_filter_contains(f, i);
        }
    }
}

} // verus!
