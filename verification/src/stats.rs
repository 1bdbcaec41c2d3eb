//! The gateway's request counters.
use vstd::prelude::*;
use std::time::{Duration, Instant};

verus! {

#[verifier::external_type_specification]
#[verifier::external_body]
pub struct ExInstant(Instant);

/// The current instant (`Instant::now`). It depends on the time of the call.
#[verifier::external_body]
fn now_instant() -> Instant {
    Instant::now()
}

/// The time elapsed since `start` (`Instant::elapsed`). It depends on the
/// time of the call.
#[verifier::external_body]
fn time_since(start: &Instant) -> Duration {
    start.elapsed()
}

/// The whole seconds of a duration (`Duration::as_secs`). A duration is
/// opaque here, so nothing is promised of the number.
#[verifier::external_body]
pub(crate) fn whole_seconds(d: &Duration) -> u64 {
    d.as_secs()
}

/// Counters of the gateway since it started.
pub struct GatewayStats {
    start_time: Instant,
    total_requests: u64,
    cache_hits: u64,
    errors_502: u64,
}

/// What the status endpoint reports.
pub struct StatsSnapshot {
    pub uptime_seconds: u64,
    pub total_requests: u64,
    pub cache_hits: u64,
    pub errors_502: u64,
}

/// No counter of `b` is below that of `a`.
pub open spec fn counts_grow(a: GatewayStats, b: GatewayStats) -> bool {
    &&& a.requests() <= b.requests()
    &&& a.hits() <= b.hits()
    &&& a.bad_gateways() <= b.bad_gateways()
}

/// The counters only grow: each `record_*` call adds one to a counter (when
/// it does not wrap) and keeps the others, so along any run of such calls
/// the counts of a later snapshot are at least those of an earlier one.
pub proof fn law_counters_only_grow(states: Seq<GatewayStats>)
    requires
        states.len() > 0,
        forall|i: int| 0 <= i < states.len() - 1 ==> counts_grow(#[trigger] states[i], states[i + 1]),
    ensures
        counts_grow(states[0], states.last()),
    decreases states.len(),
{
    if states.len() > 1 {
        let front = states.drop_last();
        assert forall|i: int| 0 <= i < front.len() - 1 implies counts_grow(#[trigger] front[i], front[i + 1]) by {
            assert(front[i] == states[i] && front[i + 1] == states[i + 1]);
        }
        law_counters_only_grow(front);
        assert(counts_grow(states[states.len() - 2], states.last()));
    }
}

impl GatewayStats {
    /// Requests handled.
    pub closed spec fn requests(&self) -> u64 {
        self.total_requests
    }

    /// Requests answered from memory (dashboard, mocks, cached chunks).
    pub closed spec fn hits(&self) -> u64 {
        self.cache_hits
    }

    /// Requests whose backend did not answer.
    pub closed spec fn bad_gateways(&self) -> u64 {
        self.errors_502
    }

    /// Counters at zero, started now.
    pub fn new() -> (r: GatewayStats)
        ensures
            r.requests() == 0,
            r.hits() == 0,
            r.bad_gateways() == 0,
    {
        GatewayStats { start_time: now_instant(), total_requests: 0, cache_hits: 0, errors_502: 0 }
    }

    /// Counts a request (wrapping like an atomic `fetch_add`).
    pub fn record_request(&mut self)
        ensures
            old(self).requests() < u64::MAX ==> counts_grow(*old(self), *final(self)),
            final(self).requests() == old(self).requests().wrapping_add(1),
            final(self).hits() == old(self).hits(),
            final(self).bad_gateways() == old(self).bad_gateways(),
    {
        self.total_requests = self.total_requests.wrapping_add(1);
    }

    /// Counts a request answered from memory.
    pub fn record_cache_hit(&mut self)
        ensures
            old(self).hits() < u64::MAX ==> counts_grow(*old(self), *final(self)),
            final(self).requests() == old(self).requests(),
            final(self).hits() == old(self).hits().wrapping_add(1),
            final(self).bad_gateways() == old(self).bad_gateways(),
    {
        self.cache_hits = self.cache_hits.wrapping_add(1);
    }

    /// Counts a request whose backend did not answer.
    pub fn record_502(&mut self)
        ensures
            old(self).bad_gateways() < u64::MAX ==> counts_grow(*old(self), *final(self)),
            final(self).requests() == old(self).requests(),
            final(self).hits() == old(self).hits(),
            final(self).bad_gateways() == old(self).bad_gateways().wrapping_add(1),
    {
        self.errors_502 = self.errors_502.wrapping_add(1);
    }

    /// The counters, with the uptime read from the clock.
    pub fn snapshot(&self) -> (r: StatsSnapshot)
        ensures
            r.total_requests == self.requests(),
            r.cache_hits == self.hits(),
            r.errors_502 == self.bad_gateways(),
    {
        StatsSnapshot {
            uptime_seconds: whole_seconds(&time_since(&self.start_time)),
            total_requests: self.total_requests,
            cache_hits: self.cache_hits,
            errors_502: self.errors_502,
        }
    }
}

} // verus!
