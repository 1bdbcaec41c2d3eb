//! The smart DNS forwarder: which upstream answers a query, the name a
//! query asks for, and the short-lived cache of answers.
use vstd::prelude::*;
use vstd::utf8::{valid_utf8, decode_utf8};
use crate::text::{any_occurs, first_match, string_of, to_lowercase, unicode_lowercase, contains_seq};
use crate::hosts::join;
use crate::security::holds_one_of;

verus! {

/// Upstream resolver for most names (Cloudflare).
pub open spec fn upstream_cloudflare() -> Seq<char> {
    "1.1.1.1:53"@
}

/// Upstream resolver for Korean public and banking services (KT).
pub open spec fn upstream_korea() -> Seq<char> {
    "168.126.63.1:53"@
}

/// How long an answer stays in the cache, in milliseconds.
pub const CACHE_TTL_MS: u64 = 60000;

/// Size of the DNS header, which precedes the question.
pub const DNS_HEADER_LEN: usize = 12;

/// Name fragments of Korean government, school, military and bank sites.
pub open spec fn korean_patterns() -> Seq<&'static str> {
    seq![
        ".go.kr",
        ".gov.kr",
        "kosaf.go.kr",
        "hometax.go.kr",
        "kbstar.com",
        "shinhan.com",
        "wooribank.com",
        "hanafn.com",
        "ibk.co.kr",
        "nhbank.com",
        "kakaobank.com",
        "tossbank.com",
        "pass.co.kr",
        "kisa.or.kr",
        "police.go.kr",
        ".ac.kr",
        ".mil.kr",
    ]
}

fn korean_pattern_list() -> (r: Vec<&'static str>)
    ensures
        r@ == korean_patterns(),
{
    let r = vec![
        ".go.kr",
        ".gov.kr",
        "kosaf.go.kr",
        "hometax.go.kr",
        "kbstar.com",
        "shinhan.com",
        "wooribank.com",
        "hanafn.com",
        "ibk.co.kr",
        "nhbank.com",
        "kakaobank.com",
        "tossbank.com",
        "pass.co.kr",
        "kisa.or.kr",
        "police.go.kr",
        ".ac.kr",
        ".mil.kr",
    ];
    assert(r@ =~= korean_patterns());
    r
}

/// `is_korean_public_or_banking`: the (lower-cased) name holds one of the
/// Korean public or banking fragments.
pub fn is_korean_public_or_banking(domain: &str) -> (r: bool)
    ensures
        r == any_occurs(domain@, korean_patterns()),
{
    let d = crate::text::chars_of(domain);
    first_match(&d, &korean_pattern_list()).is_some()
}

/// The labels of the question name of a packet, read from `pos`: each label
/// is a length byte and that many bytes of UTF-8; a zero length or the end
/// of the packet ends the name. Nothing when a label runs past the end or
/// is not UTF-8.
pub open spec fn labels_from(p: Seq<u8>, pos: int) -> Option<Seq<Seq<char>>>
    decreases p.len() - pos,
{
    if pos < 0 || pos >= p.len() || p[pos] == 0 {
        Some(seq![])
    } else {
        let start = pos + 1;
        let end = start + p[pos] as int;
        if end > p.len() {
            None
        } else if !valid_utf8(p.subrange(start, end)) {
            None
        } else {
            match labels_from(p, end) {
                None => None,
                Some(rest) => Some(seq![decode_utf8(p.subrange(start, end))] + rest),
            }
        }
    }
}

/// `extract_domain_name`: the question name, its labels joined by dots.
pub open spec fn question_name(packet: Seq<u8>) -> Option<Seq<char>> {
    match labels_from(packet, DNS_HEADER_LEN as int) {
        None => None,
        Some(labels) => Some(join(labels, seq!['.'])),
    }
}

/// Decodes bytes as UTF-8 (`std::str::from_utf8`): text exactly when the
/// bytes are valid UTF-8, and then the characters they encode.
#[verifier::external_body]
fn utf8_text(bytes: &[u8]) -> (r: Option<String>)
    ensures
        r is Some <==> valid_utf8(bytes@),
        r matches Some(s) ==> s@ == decode_utf8(bytes@),
{
    std::str::from_utf8(bytes).ok().map(|s| s.to_owned())
}

/// `extract_domain_name`: the name a DNS query asks for (see
/// [`question_name`]).
pub fn extract_domain_name(packet: &[u8]) -> (r: Option<String>)
    ensures
        r is Some <==> question_name(packet@) is Some,
        r matches Some(name) ==> name@ == question_name(packet@).unwrap(),
{
    let mut pos: usize = DNS_HEADER_LEN;
    let mut parts: Vec<Vec<char>> = Vec::new();
    let ghost p = packet@;
    assert(labels_from(p, DNS_HEADER_LEN as int) == labels_from(p, pos as int));
    while pos < packet.len() && packet[pos] != 0
        invariant
            pos >= DNS_HEADER_LEN,
            p == packet@,
            labels_from(p, DNS_HEADER_LEN as int) matches Some(all) ==> labels_from(p, pos as int)
                matches Some(rest) && all == parts@.map_values(|l: Vec<char>| l@) + rest,
            labels_from(p, DNS_HEADER_LEN as int) is None ==> labels_from(p, pos as int) is None,
        decreases packet.len() - pos,
    {
        let len = packet[pos] as usize;
        let start = pos + 1;
        if len > packet.len() - start {
            assert(labels_from(p, pos as int) is None);
            return None;
        }
        let bytes = crate::text::copy_bytes(packet, start, start + len);
        match utf8_text(&bytes) {
            None => {
                assert(labels_from(p, pos as int) is None);
                return None;
            },
            Some(part) => {
                let ghost old_parts = parts@.map_values(|l: Vec<char>| l@);
                let chars = crate::text::chars_of(part.as_str());
                parts.push(chars);
                assert(parts@.map_values(|l: Vec<char>| l@) =~= old_parts.push(decode_utf8(p.subrange(start as int, (start + len) as int))));
                proof {
                    if labels_from(p, DNS_HEADER_LEN as int) is Some {
                        let rest = labels_from(p, pos as int)->0;
                        let rest2 = labels_from(p, (start + len) as int)->0;
                        assert(rest == seq![decode_utf8(p.subrange(start as int, (start + len) as int))] + rest2);
                        assert(old_parts + rest =~= old_parts.push(decode_utf8(p.subrange(start as int, (start + len) as int))) + rest2);
                    }
                }
                pos = start + len;
            },
        }
    }
    assert(labels_from(p, pos as int) == Some(Seq::<Seq<char>>::empty()));
    let ghost all = parts@.map_values(|l: Vec<char>| l@);
    assert(all + Seq::<Seq<char>>::empty() =~= all);
    let joined = join_dots(&parts);
    Some(string_of(&joined))
}

/// Joins labels with `'.'`.
fn join_dots(parts: &Vec<Vec<char>>) -> (r: Vec<char>)
    ensures
        r@ == join(parts@.map_values(|l: Vec<char>| l@), seq!['.']),
{
    let ghost all = parts@.map_values(|l: Vec<char>| l@);
    let mut out: Vec<char> = Vec::new();
    let mut i: usize = 0;
    while i < parts.len()
        invariant
            i <= parts.len(),
            all == parts@.map_values(|l: Vec<char>| l@),
            out@ == join(all.take(i as int), seq!['.']),
        decreases parts.len() - i,
    {
        assert(all.take(i + 1).drop_last() =~= all.take(i as int));
        if i > 0 {
            out.push('.');
        }
        let ghost before = out@;
        let mut k: usize = 0;
        while k < parts[i].len()
            invariant
                k <= parts@[i as int].len(),
                i < parts.len(),
                out@ == before + parts@[i as int]@.take(k as int),
            decreases parts@[i as int].len() - k,
        {
            out.push(parts[i][k]);
            assert(parts@[i as int]@.take(k + 1) =~= parts@[i as int]@.take(k as int).push(parts@[i as int]@[k as int]));
            k += 1;
        }
        assert(parts@[i as int]@.take(parts@[i as int].len() as int) =~= parts@[i as int]@);
        if i == 0 {
            assert(out@ =~= join(all.take(1), seq!['.']));
        } else {
            assert(out@ =~= join(all.take(i as int), seq!['.']) + seq!['.'] + all[i as int]);
        }
        i += 1;
    }
    assert(all.take(parts.len() as int) =~= all);
    out
}

// ---------------------------------------------------------------------------
// The answer cache
// ---------------------------------------------------------------------------

/// A cached answer: the question bytes it answers, the answer, and the
/// instant (in milliseconds of the server's clock) at which it expires.
pub struct DnsCacheEntry {
    pub key: Vec<u8>,
    pub response: Vec<u8>,
    pub expires_at: u64,
}

/// Index of the first entry for `key`, or -1.
pub open spec fn entry_index(entries: Seq<DnsCacheEntry>, key: Seq<u8>) -> int
    decreases entries.len(),
{
    if entries.len() == 0 {
        -1
    } else if entries[0].key@ == key {
        0
    } else {
        let r = entry_index(entries.drop_first(), key);
        if r < 0 {
            -1
        } else {
            r + 1
        }
    }
}

proof fn lemma_entry_index(entries: Seq<DnsCacheEntry>, key: Seq<u8>, m: int)
    requires
        0 <= m <= entries.len(),
        forall|j: int| 0 <= j < m ==> (#[trigger] entries[j]).key@ != key,
        m == entries.len() || entries[m].key@ == key,
    ensures
        entry_index(entries, key) == if m == entries.len() { -1 } else { m },
    decreases m,
{
    if entries.len() > 0 && m > 0 {
        let t = entries.drop_first();
        assert forall|j: int| 0 <= j < m - 1 implies (#[trigger] t[j]).key@ != key by {
            assert(t[j] == entries[j + 1]);
        }
        lemma_entry_index(t, key, m - 1);
    }
}

/// The smart DNS server's state: its answer cache.
pub struct SmartDnsServer {
    pub entries: Vec<DnsCacheEntry>,
}

/// What to do with a query.
pub enum DnsStep {
    /// Too short to be a query, or its cached answer is unusable: no answer.
    Ignore,
    /// Answer from the cache.
    Reply(Vec<u8>),
    /// Ask this upstream resolver, and cache its answer under `key`.
    Forward { key: Vec<u8>, upstream: String },
}

/// The answer cached for `key`, when it is still fresh at `now`.
pub open spec fn fresh_answer(entries: Seq<DnsCacheEntry>, key: Seq<u8>, now: u64) -> Option<Seq<u8>> {
    let i = entry_index(entries, key);
    if i >= 0 && now < entries[i].expires_at {
        Some(entries[i].response@)
    } else {
        None
    }
}

/// The cached answer with the query's transaction id (its first two bytes).
pub open spec fn with_query_id(response: Seq<u8>, query: Seq<u8>) -> Seq<u8> {
    response.update(0, query[0]).update(1, query[1])
}

/// The upstream for a query whose question name is `name`: KT for Korean
/// public and banking names, Cloudflare otherwise. A query whose name cannot
/// be read is asked about the empty name.
pub open spec fn upstream_for(packet: Seq<u8>) -> Seq<char> {
    let name = match question_name(packet) {
        Some(n) => n,
        None => seq![],
    };
    if any_occurs(unicode_lowercase(name), korean_patterns()) {
        upstream_korea()
    } else {
        upstream_cloudflare()
    }
}

impl SmartDnsServer {
    /// A server with an empty cache.
    pub fn new() -> (r: SmartDnsServer)
        ensures
            r.entries@.len() == 0,
    {
        SmartDnsServer { entries: Vec::new() }
    }

    fn find_entry(&self, key: &[u8]) -> (r: Option<usize>)
        ensures
            r matches Some(i) ==> i as int == entry_index(self.entries@, key@) && i < self.entries@.len(),
            r is None ==> entry_index(self.entries@, key@) == -1,
    {
        let mut i: usize = 0;
        while i < self.entries.len()
            invariant
                i <= self.entries.len(),
                forall|j: int| 0 <= j < i ==> (#[trigger] self.entries@[j]).key@ != key@,
            decreases self.entries.len() - i,
        {
            if crate::text::bytes_equal(&self.entries[i].key, key) {
                proof {
                    lemma_entry_index(self.entries@, key@, i as int);
                }
                return Some(i);
            }
            i += 1;
        }
        proof {
            lemma_entry_index(self.entries@, key@, i as int);
        }
        None
    }

    /// `handle_dns_query`'s decision at instant `now`: queries shorter than
    /// a header are ignored; a fresh cached answer is sent back with the
    /// query's id (one shorter than two bytes cannot be, and nothing is
    /// sent); otherwise the query goes upstream.
    pub fn handle_query(&self, query: &[u8], now: u64) -> (r: DnsStep)
        ensures
            query@.len() < DNS_HEADER_LEN ==> r is Ignore,
            query@.len() >= DNS_HEADER_LEN ==> ({
                let key = query@.skip(DNS_HEADER_LEN as int);
                match fresh_answer(self.entries@, key, now) {
                    Some(resp) => if resp.len() >= 2 {
                        (r matches DnsStep::Reply(a) && a@ == with_query_id(resp, query@))
                    } else {
                        r is Ignore
                    },
                    None => r matches DnsStep::Forward { key: k, upstream: u } && k@ == key && u@
                        == upstream_for(query@),
                }
            }),
    {
        if query.len() < DNS_HEADER_LEN {
            return DnsStep::Ignore;
        }
        let key = crate::text::copy_bytes(query, DNS_HEADER_LEN, query.len());
        assert(key@ =~= query@.skip(DNS_HEADER_LEN as int));
        match self.find_entry(&key) {
            Some(i) => {
                if now < self.entries[i].expires_at {
                    if self.entries[i].response.len() < 2 {
                        return DnsStep::Ignore;
                    }
                    let mut resp = crate::text::copy_bytes(&self.entries[i].response, 0, self.entries[i].response.len());
                    assert(resp@ =~= self.entries@[i as int].response@);
                    resp.set(0, query[0]);
                    resp.set(1, query[1]);
                    return DnsStep::Reply(resp);
                }
            },
            None => {},
        }
        let name = match extract_domain_name(query) {
            Some(n) => n,
            None => String::new(),
        };
        let lower = to_lowercase(name.as_str());
        let upstream = if is_korean_public_or_banking(lower.as_str()) {
            "168.126.63.1:53".to_owned()
        } else {
            "1.1.1.1:53".to_owned()
        };
        DnsStep::Forward { key, upstream }
    }

    /// Caches an upstream answer for `key` at instant `now`, for sixty
    /// seconds; an earlier answer for the same key is replaced.
    pub fn remember(&mut self, key: Vec<u8>, response: Vec<u8>, now: u64)
        requires
            now <= u64::MAX - CACHE_TTL_MS,
        ensures
            fresh_answer(final(self).entries@, key@, now) == Some(response@),
            forall|k: Seq<u8>| k != key@ ==> #[trigger] entry_index(final(self).entries@, k)
                == entry_index(old(self).entries@, k),
            final(self).entries@[entry_index(final(self).entries@, key@)].expires_at == now
                + CACHE_TTL_MS,
            entry_index(final(self).entries@, key@) >= 0,
            forall|k: Seq<u8>, t: u64| k != key@ ==> #[trigger] fresh_answer(final(self).entries@, k, t)
                == fresh_answer(old(self).entries@, k, t),
    {
        let ghost old_e = self.entries@;
        let entry = DnsCacheEntry { key: crate::text::copy_bytes(&key, 0, key.len()), response, expires_at: now + CACHE_TTL_MS };
        assert(entry.key@ =~= key@);
        match self.find_entry(&key) {
            Some(i) => {
                proof {
                    lemma_entry_index_found(old_e, key@);
                }
                self.entries.set(i, entry);
                proof {
                    let e = self.entries@;
                    assert forall|j: int| 0 <= j < i implies (#[trigger] e[j]).key@ != key@ by {
                        lemma_entry_index_prefix(old_e, key@, j);
                    }
                    lemma_entry_index(e, key@, i as int);
                    assert forall|k: Seq<u8>| k != key@ implies #[trigger] entry_index(e, k)
                        == entry_index(old_e, k) by {
                        lemma_entry_index_update(old_e, i as int, entry, k);
                    }
                    assert forall|k: Seq<u8>, t: u64| k != key@ implies #[trigger] fresh_answer(e, k, t)
                        == fresh_answer(old_e, k, t) by {
                        lemma_entry_index_update(old_e, i as int, entry, k);
                        lemma_entry_index_found(old_e, k);
                        let idx = entry_index(old_e, k);
                        if idx >= 0 {
                            assert(idx != i);
                            assert(e[idx] == old_e[idx]);
                        }
                    }
                }
            },
            None => {
                self.entries.push(entry);
                proof {
                    let e = self.entries@;
                    assert(e =~= old_e.push(entry));
                    assert forall|j: int| 0 <= j < old_e.len() implies (#[trigger] e[j]).key@ != key@ by {
                        lemma_entry_index_prefix(old_e, key@, j);
                        assert(e[j] == old_e[j]);
                    }
                    lemma_entry_index(e, key@, old_e.len() as int);
                    assert forall|k: Seq<u8>| k != key@ implies #[trigger] entry_index(e, k)
                        == entry_index(old_e, k) by {
                        lemma_entry_index_push(old_e, entry, k);
                    }
                    assert forall|k: Seq<u8>, t: u64| k != key@ implies #[trigger] fresh_answer(e, k, t)
                        == fresh_answer(old_e, k, t) by {
                        lemma_entry_index_push(old_e, entry, k);
                        lemma_entry_index_found(old_e, k);
                        let idx = entry_index(old_e, k);
                        if idx >= 0 {
                            assert(e[idx] == old_e[idx]);
                        }
                    }
                }
            },
        }
    }
}

proof fn lemma_entry_index_found(entries: Seq<DnsCacheEntry>, key: Seq<u8>)
    ensures
        -1 <= entry_index(entries, key) < entries.len(),
        entry_index(entries, key) >= 0 ==> entries[entry_index(entries, key)].key@ == key,
    decreases entries.len(),
{
    if entries.len() > 0 && entries[0].key@ != key {
        lemma_entry_index_found(entries.drop_first(), key);
    }
}

proof fn lemma_entry_index_prefix(entries: Seq<DnsCacheEntry>, key: Seq<u8>, j: int)
    requires
        0 <= j < entries.len(),
        entry_index(entries, key) == -1 || j < entry_index(entries, key),
    ensures
        entries[j].key@ != key,
    decreases j,
{
    if j > 0 {
        assert(entries[0].key@ != key);
        let t = entries.drop_first();
        assert(t[j - 1] == entries[j]);
        lemma_entry_index_prefix(t, key, j - 1);
    }
}

proof fn lemma_entry_index_update(entries: Seq<DnsCacheEntry>, i: int, e: DnsCacheEntry, k: Seq<u8>)
    requires
        0 <= i < entries.len(),
        entries[i].key@ == e.key@,
        k != e.key@,
    ensures
        entry_index(entries.update(i, e), k) == entry_index(entries, k),
    decreases entries.len(),
{
    if i > 0 {
        let t = entries.drop_first();
        assert(entries.update(i, e).drop_first() =~= t.update(i - 1, e));
        assert(entries.update(i, e)[0] == entries[0]);
        lemma_entry_index_update(t, i - 1, e, k);
    } else {
        assert(entries.update(i, e).drop_first() =~= entries.drop_first());
    }
}

proof fn lemma_entry_index_push(entries: Seq<DnsCacheEntry>, e: DnsCacheEntry, k: Seq<u8>)
    requires
        k != e.key@,
    ensures
        entry_index(entries.push(e), k) == entry_index(entries, k),
    decreases entries.len(),
{
    if entries.len() > 0 {
        assert(entries.push(e).drop_first() =~= entries.drop_first().push(e));
        lemma_entry_index_push(entries.drop_first(), e, k);
    } else {
        assert(entries.push(e).drop_first() =~= entries);
    }
}

/// What a read gives back of a write: after an answer is cached for a
/// question at instant `t`, a query with that question asked before
/// `t` + 60 s is answered from the cache, with the query's own id; asked
/// later, it goes upstream again.
pub proof fn law_cache_read_after_write(entries: Seq<DnsCacheEntry>, key: Seq<u8>, response: Seq<u8>, t: u64, later: u64)
    requires
        fresh_answer(entries, key, t) == Some(response),
        entries[entry_index(entries, key)].expires_at == t + CACHE_TTL_MS,
        entry_index(entries, key) >= 0,
        t <= u64::MAX - CACHE_TTL_MS,
    ensures
        later < t + CACHE_TTL_MS ==> fresh_answer(entries, key, later) == Some(response),
        later >= t + CACHE_TTL_MS ==> fresh_answer(entries, key, later) is None,
{
}

/// The name fragments of Korean public and banking sites.
pub open spec fn korean_site_fragments() -> Seq<Seq<char>> {
    seq![
        ".go.kr"@, ".gov.kr"@, "kosaf.go.kr"@, "hometax.go.kr"@, "kbstar.com"@, "shinhan.com"@,
        "wooribank.com"@, "hanafn.com"@, "ibk.co.kr"@, "nhbank.com"@, "kakaobank.com"@,
        "tossbank.com"@, "pass.co.kr"@, "kisa.or.kr"@, "police.go.kr"@, ".ac.kr"@, ".mil.kr"@,
    ]
}

/// A name is Korean public or banking exactly when it holds one of the
/// fragments of government, school, military and bank sites (so every
/// `.ac.kr`, `.go.kr` or `.mil.kr` name is); a query is sent to KT's
/// resolver (`168.126.63.1:53`) exactly when its lower-cased question name
/// is such a name, and to Cloudflare (`1.1.1.1:53`) otherwise.
pub proof fn law_korean_names_go_to_kt(name: Seq<char>, packet: Seq<u8>)
    ensures
        any_occurs(name, korean_patterns()) == holds_one_of(name, korean_site_fragments()),
        upstream_for(packet) == if holds_one_of(
            unicode_lowercase(
                match question_name(packet) {
                    Some(n) => n,
                    None => seq![],
                },
            ),
            korean_site_fragments(),
        ) {
            "168.126.63.1:53"@
        } else {
            "1.1.1.1:53"@
        },
{
    assert(korean_site_fragments() =~= korean_patterns().map_values(|x: &'static str| x@));
    let asked = unicode_lowercase(
        match question_name(packet) {
            Some(n) => n,
            None => seq![],
        },
    );
    lemma_any_occurs_fragments(name);
    lemma_any_occurs_fragments(asked);
}

proof fn lemma_any_occurs_fragments(s: Seq<char>)
    ensures
        any_occurs(s, korean_patterns()) == holds_one_of(s, korean_site_fragments()),
{
    let frags = korean_site_fragments();
    let pats = korean_patterns();
    assert(frags =~= pats.map_values(|x: &'static str| x@));
    if holds_one_of(s, frags) {
        let k = choose|k: int| 0 <= k < frags.len() && contains_seq(s, #[trigger] frags[k]);
        assert(frags[k] == pats[k]@);
    }
    if any_occurs(s, pats) {
        let k = choose|k: int| 0 <= k < pats.len() && contains_seq(s, #[trigger] pats[k]@);
        assert(frags[k] == pats[k]@);
    }
}

} // verus!
