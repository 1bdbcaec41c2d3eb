//! The gateway's RAM cache of backend answers: with caching switched on, an
//! answer to a GET request is kept by a key naming the request, and the
//! same request is later answered from memory. The latest answer stored
//! for a key is the one served.
use vstd::prelude::*;
use crate::text::str_eq;

verus! {

/// An answer kept in memory.
pub struct CachedResponse {
    pub key: String,
    pub status: u16,
    pub body: Vec<u8>,
}

/// The kept answers, oldest first.
pub struct ResponseCache {
    pub responses: Vec<CachedResponse>,
}

/// A kept answer read as plain values.
pub open spec fn response_view(r: CachedResponse) -> (Seq<char>, u16, Seq<u8>) {
    (r.key@, r.status, r.body@)
}

/// The latest answer kept for `key` in `entries`, as status and body.
pub open spec fn latest(entries: Seq<(Seq<char>, u16, Seq<u8>)>, key: Seq<char>) -> Option<(u16, Seq<u8>)>
    decreases entries.len(),
{
    if entries.len() == 0 {
        None
    } else if entries.last().0 == key {
        Some((entries.last().1, entries.last().2))
    } else {
        latest(entries.drop_last(), key)
    }
}

impl ResponseCache {
    /// The kept answers as plain values, oldest first.
    pub open spec fn entries(&self) -> Seq<(Seq<char>, u16, Seq<u8>)> {
        self.responses@.map_values(|r: CachedResponse| response_view(r))
    }

    /// The answer served for `key`.
    pub open spec fn lookup(&self, key: Seq<char>) -> Option<(u16, Seq<u8>)> {
        latest(self.entries(), key)
    }

    /// An empty cache.
    pub fn new() -> (r: ResponseCache)
        ensures
            r.entries().len() == 0,
            forall|k: Seq<char>| #[trigger] r.lookup(k) is None,
    {
        let r = ResponseCache { responses: Vec::new() };
        assert(r.entries() =~= Seq::<(Seq<char>, u16, Seq<u8>)>::empty());
        r
    }

    /// The answer served for `key`, if one is kept.
    pub fn get(&self, key: &str) -> (r: Option<(u16, Vec<u8>)>)
        ensures
            match r {
                Some((status, body)) => self.lookup(key@) == Some((status, body@)),
                None => self.lookup(key@) is None,
            },
    {
        let ghost e = self.entries();
        let mut i: usize = self.responses.len();
        assert(e.take(i as int) =~= e);
        while i > 0
            invariant
                i <= self.responses.len(),
                e == self.entries(),
                latest(e, key@) == latest(e.take(i as int), key@),
            decreases i,
        {
            assert(e.take(i as int).drop_last() =~= e.take(i - 1));
            if str_eq(self.responses[i - 1].key.as_str(), key) {
                let kept = &self.responses[i - 1];
                return Some((kept.status, kept.body.clone()));
            }
            i -= 1;
        }
        None
    }

    /// Keeps `body` with `status` as the answer for `key`.
    pub fn store(&mut self, key: String, status: u16, body: Vec<u8>)
        ensures
            final(self).entries() == old(self).entries().push((key@, status, body@)),
            final(self).lookup(key@) == Some((status, body@)),
            forall|k: Seq<char>| k != key@ ==> #[trigger] final(self).lookup(k) == old(self).lookup(k),
    {
        let ghost e = self.entries();
        let ghost item = (key@, status, body@);
        self.responses.push(CachedResponse { key, status, body });
        assert(self.entries() =~= e.push(item));
        assert(self.entries().drop_last() =~= e);
    }
}

} // verus!
