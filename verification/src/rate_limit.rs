//! Per-domain rate limiting of outbound requests.
//!
//! Each domain keeps the times of its requests within the last hour, the
//! current minimum interval between requests (inflated after HTTP 429
//! responses) and the number of 429s in a row. Times are nanoseconds on a
//! monotonic clock, supplied by the caller; durations are nanoseconds too.

use vstd::prelude::*;
use crate::text::{lowercase, to_lower, owned, str_eq};
use crate::tls::random_range;

verus! {

/// One hour, in nanoseconds.
pub const HOUR_NANOS: u64 = 3_600_000_000_000u64;

/// One second, in nanoseconds.
pub const SECOND_NANOS: u64 = 1_000_000_000u64;

/// Bookkeeping for a single domain.
#[derive(Debug, Clone)]
pub struct DomainState {
    pub domain: String,
    /// Times of the requests within the current rolling hour.
    pub request_timestamps: Vec<u64>,
    /// The current minimum interval in seconds (inflated by back-off).
    pub current_interval_secs: u64,
    /// How many 429 responses came in a row (reset on success).
    pub consecutive_429s: u32,
}

/// A request made at `t` still counts at `now`: less than an hour ago.
pub open spec fn is_recent(t: u64, now: u64) -> bool {
    t + HOUR_NANOS > now
}

/// The request times of `ts` that still count at `now`, in order.
pub open spec fn recent(ts: Seq<u64>, now: u64) -> Seq<u64>
    decreases ts.len(),
{
    if ts.len() == 0 {
        Seq::empty()
    } else if is_recent(ts.last(), now) {
        recent(ts.drop_last(), now).push(ts.last())
    } else {
        recent(ts.drop_last(), now)
    }
}

/// Time elapsed from `t` to `now`, zero if `t` is later.
pub open spec fn elapsed(t: u64, now: u64) -> int {
    if now >= t {
        now - t
    } else {
        0
    }
}

/// How long to wait, at `now`, before the next request to a domain whose
/// recent request times are `ts` and whose interval is `interval_secs`:
/// until the oldest request leaves the hour once the hourly cap is
/// reached, else until the interval since the last request has passed.
pub open spec fn wait_spec(ts: Seq<u64>, interval_secs: u64, max_per_hour: u32, now: u64) -> int {
    if ts.len() as u32 >= max_per_hour && ts[0] + HOUR_NANOS > now {
        ts[0] + HOUR_NANOS - now
    } else if ts.len() > 0 && elapsed(ts.last(), now) < interval_secs * SECOND_NANOS {
        interval_secs * SECOND_NANOS - elapsed(ts.last(), now)
    } else {
        0
    }
}

impl DomainState {
    /// A domain with no requests yet and the base interval.
    pub fn new(domain: String, base_interval: u64) -> (s: Self)
        ensures
            s.domain == domain,
            s.request_timestamps@ == Seq::<u64>::empty(),
            s.current_interval_secs == base_interval,
            s.consecutive_429s == 0,
    {
        DomainState {
            domain,
            request_timestamps: Vec::new(),
            current_interval_secs: base_interval,
            consecutive_429s: 0,
        }
    }

    /// Forget the requests made an hour or more before `now`.
    pub fn prune(&mut self, now: u64)
        ensures
            final(self).request_timestamps@ == recent(old(self).request_timestamps@, now),
            final(self).domain == old(self).domain,
            final(self).current_interval_secs == old(self).current_interval_secs,
            final(self).consecutive_429s == old(self).consecutive_429s,
    {
        let mut kept: Vec<u64> = Vec::new();
        let mut i: usize = 0;
        let n = self.request_timestamps.len();
        while i < n
            invariant
                n == self.request_timestamps.len(),
                self.request_timestamps@ == old(self).request_timestamps@,
                i <= n,
                kept@ == recent(self.request_timestamps@.take(i as int), now),
            decreases n - i,
        {
            let t = self.request_timestamps[i];
            assert(self.request_timestamps@.take(i + 1).drop_last() =~= self.request_timestamps@.take(
                i as int,
            ));
            if now < HOUR_NANOS || t > now - HOUR_NANOS {
                kept.push(t);
            }
            i += 1;
        }
        assert(self.request_timestamps@.take(n as int) =~= self.request_timestamps@);
        self.request_timestamps = kept;
    }
}

/// Read-only snapshot of one domain's rate-limit state.
#[derive(Debug, Clone)]
pub struct DomainStats {
    pub domain: String,
    pub requests_this_hour: usize,
    /// Nanoseconds since the last request, or `None` without requests.
    pub last_request_at: Option<u64>,
    pub current_interval_secs: u64,
    pub is_backed_off: bool,
}

/// A domain's entry: `(domain, recent request times, interval in seconds,
/// 429s in a row)`.
pub open spec fn entry_of(s: DomainState) -> (Seq<char>, Seq<u64>, u64, u32) {
    (s.domain@, s.request_timestamps@, s.current_interval_secs, s.consecutive_429s)
}

/// Position of `d`'s entry.
pub open spec fn entry_index(es: Seq<(Seq<char>, Seq<u64>, u64, u32)>, d: Seq<char>) -> Option<int>
    decreases es.len(),
{
    if es.len() == 0 {
        None
    } else if es.last().0 == d {
        Some(es.len() - 1)
    } else {
        entry_index(es.drop_last(), d)
    }
}

/// `es` with an entry for `d`: unchanged when it has one, else with a new
/// entry for `d` at the end.
pub open spec fn touched(es: Seq<(Seq<char>, Seq<u64>, u64, u32)>, d: Seq<char>, base: u64) -> Seq<
    (Seq<char>, Seq<u64>, u64, u32),
> {
    match entry_index(es, d) {
        Some(_) => es,
        None => es.push((d, Seq::empty(), base, 0u32)),
    }
}

/// Position of `d`'s entry in `touched(es, d, _)`.
pub open spec fn slot_of(es: Seq<(Seq<char>, Seq<u64>, u64, u32)>, d: Seq<char>) -> int {
    match entry_index(es, d) {
        Some(i) => i,
        None => es.len() as int,
    }
}

/// No domain has two entries.
pub open spec fn domains_unique(es: Seq<(Seq<char>, Seq<u64>, u64, u32)>) -> bool {
    forall|i: int, j: int| 0 <= i < j < es.len() ==> es[i].0 != es[j].0
}

/// What `entry_index` finds has that domain, and nothing later does.
pub proof fn lemma_entry_index(es: Seq<(Seq<char>, Seq<u64>, u64, u32)>, d: Seq<char>)
    ensures
        entry_index(es, d) matches Some(i) ==> 0 <= i < es.len() && es[i].0 == d,
        entry_index(es, d) is None ==> forall|j: int| 0 <= j < es.len() ==> es[j].0 != d,
    decreases es.len(),
{
    if es.len() > 0 && es.last().0 != d {
        lemma_entry_index(es.drop_last(), d);
        assert(forall|j: int| 0 <= j < es.len() - 1 ==> es.drop_last()[j] == es[j]);
    }
}

/// With unique domains, an entry's domain leads back to it.
pub proof fn lemma_entry_index_unique(es: Seq<(Seq<char>, Seq<u64>, u64, u32)>, i: int)
    requires
        domains_unique(es),
        0 <= i < es.len(),
    ensures
        entry_index(es, es[i].0) == Some(i),
{
    lemma_entry_index(es, es[i].0);
}

/// `d`'s entry once tracked (with the base interval if new) and pruned at `now`.
pub open spec fn pruned_entry(
    es: Seq<(Seq<char>, Seq<u64>, u64, u32)>,
    d: Seq<char>,
    base: u64,
    now: u64,
) -> (Seq<char>, Seq<u64>, u64, u32) {
    let e = touched(es, d, base)[slot_of(es, d)];
    (e.0, recent(e.1, now), e.2, e.3)
}

/// The entries once `d` is tracked and its entry pruned at `now`.
pub open spec fn after_prune(
    es: Seq<(Seq<char>, Seq<u64>, u64, u32)>,
    d: Seq<char>,
    base: u64,
    now: u64,
) -> Seq<(Seq<char>, Seq<u64>, u64, u32)> {
    touched(es, d, base).update(slot_of(es, d), pruned_entry(es, d, base, now))
}

/// Every entry pruned at `now`.
pub open spec fn prune_all(es: Seq<(Seq<char>, Seq<u64>, u64, u32)>, now: u64) -> Seq<
    (Seq<char>, Seq<u64>, u64, u32),
> {
    es.map_values(|e: (Seq<char>, Seq<u64>, u64, u32)| (e.0, recent(e.1, now), e.2, e.3))
}

/// The largest `std::time::Duration`, in nanoseconds.
pub open spec fn duration_max_nanos() -> int {
    u64::MAX * SECOND_NANOS + (SECOND_NANOS - 1)
}

/// The host of `url` as the `url` crate parses it, or `None` when it does
/// not parse or has no host; a function of the text alone.
pub uninterp spec fn parsed_url_host(url: Seq<char>) -> Option<Seq<char>>;

/// The lower-cased host of `url`, or the lower-cased text itself when it
/// has none.
pub open spec fn domain_of(url: Seq<char>) -> Seq<char> {
    match parsed_url_host(url) {
        Some(h) => lowercase(h),
        None => lowercase(url),
    }
}

/// `url::Url::parse(raw)` then `host_str()`.
#[verifier::external_body]
pub(crate) fn url_host(raw: &str) -> (r: Option<String>)
    ensures
        match r {
            Some(h) => parsed_url_host(raw@) == Some(h@),
            None => parsed_url_host(raw@) is None,
        },
{
    url::Url::parse(raw).ok().and_then(|u| u.host_str().map(|h| h.to_string()))
}

/// Thread-unaware per-domain rate limiter; the caller serialises access
/// and supplies the clock.
pub struct DomainRateLimiter {
    limits: Vec<DomainState>,
    /// Maximum requests allowed per rolling hour.
    max_per_hour: u32,
    /// Minimum seconds between consecutive requests to the same domain.
    min_interval_secs: u64,
    /// Upper bound (exclusive) for the random jitter added to a wait, in seconds.
    jitter_range_secs: u64,
}

impl DomainRateLimiter {
    /// Every tracked domain's entry, in order of first use.
    pub closed spec fn entries(&self) -> Seq<(Seq<char>, Seq<u64>, u64, u32)> {
        self.limits@.map_values(|s: DomainState| entry_of(s))
    }

    /// The configuration: `(max per hour, base interval in seconds, jitter
    /// range in seconds)`.
    pub closed spec fn config(&self) -> (u32, u64, u64) {
        (self.max_per_hour, self.min_interval_secs, self.jitter_range_secs)
    }

    /// Domains are tracked once each.
    pub closed spec fn wf(&self) -> bool {
        domains_unique(self.entries())
    }

    /// A limiter that tracks no domain yet.
    pub fn new(max_per_hour: u32, min_interval_secs: u64, jitter_range_secs: u64) -> (r: Self)
        ensures
            r.wf(),
            r.entries() == Seq::<(Seq<char>, Seq<u64>, u64, u32)>::empty(),
            r.config() == (max_per_hour, min_interval_secs, jitter_range_secs),
    {
        let r = DomainRateLimiter {
            limits: Vec::new(),
            max_per_hour,
            min_interval_secs,
            jitter_range_secs,
        };
        assert(r.entries() =~= Seq::<(Seq<char>, Seq<u64>, u64, u32)>::empty());
        r
    }

    /// Index of `domain`'s state, adding one with the base interval when
    /// the domain is new.
    fn slot(&mut self, domain: &str) -> (i: usize)
        requires
            old(self).wf(),
        ensures
            final(self).wf(),
            final(self).entries() == touched(old(self).entries(), domain@, old(self).min_interval_secs),
            i == slot_of(old(self).entries(), domain@),
            i < final(self).limits.len(),
            final(self).config() == old(self).config(),
    {
        let ghost es = self.entries();
        let mut k: usize = 0;
        while k < self.limits.len()
            invariant
                es == self.entries(),
                self.wf(),
                k <= self.limits.len(),
                forall|j: int| 0 <= j < k ==> es[j].0 != domain@,
            decreases self.limits.len() - k,
        {
            assert(es[k as int] == entry_of(self.limits@[k as int]));
            if str_eq(self.limits[k].domain.as_str(), domain) {
                proof { lemma_entry_index_unique(es, k as int); }
                return k;
            }
            k += 1;
        }
        proof { lemma_entry_index(es, domain@); }
        let st = DomainState::new(owned(domain), self.min_interval_secs);
        self.limits.push(st);
        assert(self.entries() =~= es.push((domain@, Seq::empty(), self.min_interval_secs, 0u32)));
        k
    }

    /// How long, in nanoseconds, to wait at `now` before the next request
    /// to `domain`; 0 when it may go at once. The domain becomes tracked
    /// and its requests older than an hour are forgotten.
    pub fn wait_time(&mut self, domain: &str, now: u64) -> (r: u128)
        requires
            old(self).wf(),
            old(self).config().0 > 0 || pruned_entry(
                old(self).entries(),
                domain@,
                old(self).config().1,
                now,
            ).1.len() > 0,
        ensures
            final(self).wf(),
            final(self).config() == old(self).config(),
            final(self).entries() == after_prune(old(self).entries(), domain@, old(self).config().1, now),
            r == wait_spec(
                pruned_entry(old(self).entries(), domain@, old(self).config().1, now).1,
                pruned_entry(old(self).entries(), domain@, old(self).config().1, now).2,
                old(self).config().0,
                now,
            ),
    {
        let i = self.slot(domain);
        let ghost es1 = self.entries();
        self.limits[i].prune(now);
        assert(self.entries() =~= es1.update(i as int, pruned_entry(old(self).entries(), domain@, old(self).config().1, now)));
        let st = &self.limits[i];
        assert(entry_of(*st) == self.entries()[i as int]);
        let n = st.request_timestamps.len();
        if (n as u32) >= self.max_per_hour {
            let oldest = st.request_timestamps[0];
            let expires: u128 = oldest as u128 + HOUR_NANOS as u128;
            if expires > now as u128 {
                return expires - now as u128;
            }
        }
        if n > 0 {
            let last = st.request_timestamps[n - 1];
            let interval: u128 = st.current_interval_secs as u128 * SECOND_NANOS as u128;
            let el: u128 = if now >= last { (now - last) as u128 } else { 0 };
            if el < interval {
                return interval - el;
            }
        }
        0
    }

    /// Whether a request to `domain` may go at `now` (the wait is zero).
    pub fn can_proceed(&mut self, domain: &str, now: u64) -> (b: bool)
        requires
            old(self).wf(),
            old(self).config().0 > 0 || pruned_entry(
                old(self).entries(),
                domain@,
                old(self).config().1,
                now,
            ).1.len() > 0,
        ensures
            final(self).wf(),
            final(self).config() == old(self).config(),
            final(self).entries() == after_prune(old(self).entries(), domain@, old(self).config().1, now),
            b == (wait_spec(
                pruned_entry(old(self).entries(), domain@, old(self).config().1, now).1,
                pruned_entry(old(self).entries(), domain@, old(self).config().1, now).2,
                old(self).config().0,
                now,
            ) == 0),
    {
        self.wait_time(domain, now) == 0
    }

    /// Record that a request to `domain` was sent at `now`.
    pub fn record_request(&mut self, domain: &str, now: u64)
        requires
            old(self).wf(),
        ensures
            final(self).wf(),
            final(self).config() == old(self).config(),
            ({
                let p = pruned_entry(old(self).entries(), domain@, old(self).config().1, now);
                final(self).entries() == touched(old(self).entries(), domain@, old(self).config().1).update(
                    slot_of(old(self).entries(), domain@),
                    (p.0, p.1.push(now), p.2, p.3),
                )
            }),
    {
        let i = self.slot(domain);
        let ghost es1 = self.entries();
        self.limits[i].prune(now);
        self.limits[i].request_timestamps.push(now);
        let ghost p = pruned_entry(old(self).entries(), domain@, old(self).config().1, now);
        assert(self.entries() =~= es1.update(i as int, (p.0, p.1.push(now), p.2, p.3)));
    }

    /// The state of `domain`, when it is tracked.
    pub fn domain_state(&self, domain: &str) -> (r: Option<&DomainState>)
        requires
            self.wf(),
        ensures
            match entry_index(self.entries(), domain@) {
                Some(i) => r matches Some(st) && entry_of(*st) == self.entries()[i],
                None => r is None,
            },
    {
        let ghost es = self.entries();
        let mut k: usize = 0;
        while k < self.limits.len()
            invariant
                es == self.entries(),
                self.wf(),
                k <= self.limits.len(),
                forall|j: int| 0 <= j < k ==> es[j].0 != domain@,
            decreases self.limits.len() - k,
        {
            assert(es[k as int] == entry_of(self.limits@[k as int]));
            if str_eq(self.limits[k].domain.as_str(), domain) {
                proof { lemma_entry_index_unique(es, k as int); }
                return Some(&self.limits[k]);
            }
            k += 1;
        }
        proof { lemma_entry_index(es, domain@); }
        None
    }

    /// The interval that applies to `domain`: its current one, or the base
    /// interval when it is not tracked yet.
    pub fn interval_for(&self, domain: &str) -> (r: u64)
        requires
            self.wf(),
        ensures
            r == touched(self.entries(), domain@, self.config().1)[slot_of(self.entries(), domain@)].2,
    {
        let ghost es = self.entries();
        let mut k: usize = 0;
        while k < self.limits.len()
            invariant
                es == self.entries(),
                self.wf(),
                k <= self.limits.len(),
                forall|j: int| 0 <= j < k ==> es[j].0 != domain@,
            decreases self.limits.len() - k,
        {
            assert(es[k as int] == entry_of(self.limits@[k as int]));
            if str_eq(self.limits[k].domain.as_str(), domain) {
                proof { lemma_entry_index_unique(es, k as int); }
                return self.limits[k].current_interval_secs;
            }
            k += 1;
        }
        proof { lemma_entry_index(es, domain@); }
        self.min_interval_secs
    }

    /// The server answered HTTP 429: count it, and set the interval to
    /// `next_interval_secs` (the current interval times the back-off
    /// factor, which the caller computes).
    pub fn record_rate_limited(&mut self, domain: &str, next_interval_secs: u64)
        requires
            old(self).wf(),
            touched(old(self).entries(), domain@, old(self).config().1)[slot_of(
                old(self).entries(),
                domain@,
            )].3 < u32::MAX,
        ensures
            final(self).wf(),
            final(self).config() == old(self).config(),
            ({
                let t = touched(old(self).entries(), domain@, old(self).config().1);
                let i = slot_of(old(self).entries(), domain@);
                final(self).entries() == t.update(i, (t[i].0, t[i].1, next_interval_secs, (t[i].3 + 1) as u32))
            }),
    {
        let i = self.slot(domain);
        let ghost es1 = self.entries();
        assert(es1[i as int] == entry_of(self.limits@[i as int]));
        self.limits[i].consecutive_429s = self.limits[i].consecutive_429s + 1;
        self.limits[i].current_interval_secs = next_interval_secs;
        assert(self.entries() =~= es1.update(
            i as int,
            (es1[i as int].0, es1[i as int].1, next_interval_secs, (es1[i as int].3 + 1) as u32),
        ));
    }

    /// A request to `domain` succeeded: clear its 429 count and return its
    /// interval to the base. Untracked domains stay untracked.
    pub fn record_success(&mut self, domain: &str)
        requires
            old(self).wf(),
        ensures
            final(self).wf(),
            final(self).config() == old(self).config(),
            match entry_index(old(self).entries(), domain@) {
                Some(i) => final(self).entries() == old(self).entries().update(
                    i,
                    (old(self).entries()[i].0, old(self).entries()[i].1, old(self).config().1, 0u32),
                ),
                None => final(self).entries() == old(self).entries(),
            },
    {
        let ghost es = self.entries();
        let mut k: usize = 0;
        while k < self.limits.len()
            invariant
                es == self.entries(),
                es == old(self).entries(),
                self.config() == old(self).config(),
                self.wf(),
                k <= self.limits.len(),
                forall|j: int| 0 <= j < k ==> es[j].0 != domain@,
            decreases self.limits.len() - k,
        {
            assert(es[k as int] == entry_of(self.limits@[k as int]));
            if str_eq(self.limits[k].domain.as_str(), domain) {
                proof { lemma_entry_index_unique(es, k as int); }
                let base = self.min_interval_secs;
                self.limits[k].consecutive_429s = 0;
                self.limits[k].current_interval_secs = base;
                assert(self.entries() =~= es.update(k as int, (es[k as int].0, es[k as int].1, base, 0u32)));
                return;
            }
            k += 1;
        }
        proof { lemma_entry_index(es, domain@); }
    }

    /// `base` plus `jitter_secs` whole seconds, or `base` itself when the
    /// jitter range is zero; `jitter_secs` is a draw below that range.
    pub fn wait_with_jitter(&self, base: u128, jitter_secs: u64) -> (r: u128)
        requires
            base <= duration_max_nanos(),
            self.config().2 > 0 ==> jitter_secs < self.config().2,
            self.config().2 > 0 ==> base + (self.config().2 - 1) * SECOND_NANOS <= duration_max_nanos(),
        ensures
            self.config().2 == 0 ==> r == base,
            self.config().2 > 0 ==> r == base + jitter_secs * SECOND_NANOS,
    {
        let range = self.jitter_range_secs;
        if range == 0 {
            return base;
        }
        assert(jitter_secs * SECOND_NANOS <= (range - 1) * SECOND_NANOS) by (nonlinear_arith)
            requires
                jitter_secs < range,
        ;
        let add: u128 = jitter_secs as u128 * SECOND_NANOS as u128;
        base + add
    }

    /// `base` plus a random whole number of seconds below the jitter
    /// range, or `base` itself when the range is zero. Which number of
    /// seconds is drawn is left open; every one below the range can come.
    pub fn jittered_wait(&self, base: u128) -> (r: u128)
        requires
            base <= duration_max_nanos(),
            self.config().2 > 0 ==> base + (self.config().2 - 1) * SECOND_NANOS <= duration_max_nanos(),
        ensures
            self.config().2 == 0 ==> r == base,
            self.config().2 > 0 ==> base <= r < base + self.config().2 * SECOND_NANOS && (r - base)
                % (SECOND_NANOS as int) == 0,
    {
        let range = self.jitter_range_secs;
        if range == 0 {
            return base;
        }
        let jitter = random_range(0, range);
        let r = self.wait_with_jitter(base, jitter);
        assert((jitter * SECOND_NANOS) % (SECOND_NANOS as int) == 0) by (nonlinear_arith);
        assert(jitter * SECOND_NANOS < range * SECOND_NANOS) by (nonlinear_arith)
            requires
                jitter < range,
        ;
        r
    }

    /// The lower-cased host of `url`, or the lower-cased `url` itself when
    /// it does not parse or has no host.
    pub fn extract_domain(url: &str) -> (r: String)
        ensures
            r@ == domain_of(url@),
    {
        match url_host(url) {
            Some(h) => to_lower(h.as_str()),
            None => to_lower(url),
        }
    }

    /// Every tracked domain's state at `now`, in order of first use; each
    /// domain's requests older than an hour are forgotten.
    pub fn stats(&mut self, now: u64) -> (r: Vec<DomainStats>)
        requires
            old(self).wf(),
        ensures
            final(self).wf(),
            final(self).config() == old(self).config(),
            final(self).entries() == prune_all(old(self).entries(), now),
            r@.len() == old(self).entries().len(),
            forall|i: int| #![trigger r@[i]]
                0 <= i < r@.len() ==> {
                    let e = prune_all(old(self).entries(), now)[i];
                    &&& r@[i].domain@ == e.0
                    &&& r@[i].requests_this_hour == e.1.len()
                    &&& r@[i].last_request_at == (if e.1.len() > 0 {
                        Some(elapsed(e.1.last(), now) as u64)
                    } else {
                        None
                    })
                    &&& r@[i].current_interval_secs == e.2
                    &&& r@[i].is_backed_off == (e.3 > 0)
                },
    {
        let ghost es = self.entries();
        let mut out: Vec<DomainStats> = Vec::new();
        let mut k: usize = 0;
        while k < self.limits.len()
            invariant
                es == old(self).entries(),
                self.config() == old(self).config(),
                self.limits@.len() == es.len(),
                k <= self.limits.len(),
                out@.len() == k,
                forall|j: int|
                    0 <= j < k ==> #[trigger] entry_of(self.limits@[j]) == prune_all(es, now)[j],
                forall|j: int| k <= j < es.len() ==> #[trigger] entry_of(self.limits@[j]) == es[j],
                forall|j: int| #![trigger out@[j]]
                    0 <= j < k ==> {
                        let e = prune_all(es, now)[j];
                        &&& out@[j].domain@ == e.0
                        &&& out@[j].requests_this_hour == e.1.len()
                        &&& out@[j].last_request_at == (if e.1.len() > 0 {
                            Some(elapsed(e.1.last(), now) as u64)
                        } else {
                            None
                        })
                        &&& out@[j].current_interval_secs == e.2
                        &&& out@[j].is_backed_off == (e.3 > 0)
                    },
            decreases self.limits.len() - k,
        {
            assert(entry_of(self.limits@[k as int]) == es[k as int]);
            self.limits[k].prune(now);
            let st = &self.limits[k];
            let n = st.request_timestamps.len();
            let last_request_at = if n > 0 {
                let t = st.request_timestamps[n - 1];
                Some(if now >= t { now - t } else { 0 })
            } else {
                None
            };
            out.push(
                DomainStats {
                    domain: st.domain.clone(),
                    requests_this_hour: n,
                    last_request_at,
                    current_interval_secs: st.current_interval_secs,
                    is_backed_off: st.consecutive_429s > 0,
                },
            );
            k += 1;
        }
        assert(self.entries() =~= prune_all(es, now));
        out
    }
}

} // verus!

verus! {

/// `d`'s entry, if it is tracked.
pub open spec fn entry_for(es: Seq<(Seq<char>, Seq<u64>, u64, u32)>, d: Seq<char>) -> Option<
    (Seq<char>, Seq<u64>, u64, u32),
> {
    match entry_index(es, d) {
        Some(i) => Some(es[i]),
        None => None,
    }
}

proof fn lemma_entry_index_names(
    a: Seq<(Seq<char>, Seq<u64>, u64, u32)>,
    b: Seq<(Seq<char>, Seq<u64>, u64, u32)>,
    d: Seq<char>,
)
    requires
        a.len() == b.len(),
        forall|j: int| 0 <= j < a.len() ==> a[j].0 == b[j].0,
    ensures
        entry_index(a, d) == entry_index(b, d),
    decreases a.len(),
{
    if a.len() > 0 {
        lemma_entry_index_names(a.drop_last(), b.drop_last(), d);
    }
}

/// Changing one domain's entry (tracking it first if needed) leaves every
/// other domain's entry as it was: domains are limited independently.
pub proof fn lemma_domains_independent(
    es: Seq<(Seq<char>, Seq<u64>, u64, u32)>,
    d: Seq<char>,
    base: u64,
    x: (Seq<char>, Seq<u64>, u64, u32),
    y: Seq<char>,
)
    requires
        domains_unique(es),
        x.0 == d,
        y != d,
    ensures
        entry_for(touched(es, d, base).update(slot_of(es, d), x), y) == entry_for(es, y),
{
    lemma_entry_index(es, d);
    lemma_entry_index(es, y);
    match entry_index(es, d) {
        Some(i) => {
            let after = es.update(i, x);
            lemma_entry_index_names(after, es, y);
            lemma_entry_index(after, y);
        },
        None => {
            let after = touched(es, d, base).update(es.len() as int, x);
            assert(after =~= es.push(x));
            assert(after.drop_last() =~= es);
        },
    }
}

/// A domain that is not tracked yet may be requested at once.
pub proof fn lemma_new_domain_proceeds(
    es: Seq<(Seq<char>, Seq<u64>, u64, u32)>,
    d: Seq<char>,
    base: u64,
    max_per_hour: u32,
    now: u64,
)
    requires
        entry_index(es, d) is None,
        max_per_hour > 0,
    ensures
        wait_spec(
            pruned_entry(es, d, base, now).1,
            pruned_entry(es, d, base, now).2,
            max_per_hour,
            now,
        ) == 0,
{
    assert(touched(es, d, base)[slot_of(es, d)].1 == Seq::<u64>::empty());
    assert(recent(Seq::<u64>::empty(), now) == Seq::<u64>::empty());
}

/// With no request time later than `now`, the wait never exceeds an hour
/// or the interval, whichever is longer; and while the interval since the
/// last request has not passed, the wait is positive.
pub proof fn lemma_wait_bounded(ts: Seq<u64>, interval_secs: u64, max_per_hour: u32, now: u64)
    requires
        forall|i: int| 0 <= i < ts.len() ==> ts[i] <= now,
        max_per_hour > 0 || ts.len() > 0,
    ensures
        0 <= wait_spec(ts, interval_secs, max_per_hour, now),
        wait_spec(ts, interval_secs, max_per_hour, now) <= HOUR_NANOS || wait_spec(
            ts,
            interval_secs,
            max_per_hour,
            now,
        ) <= interval_secs * SECOND_NANOS,
        ts.len() > 0 && elapsed(ts.last(), now) < interval_secs * SECOND_NANOS ==> wait_spec(
            ts,
            interval_secs,
            max_per_hour,
            now,
        ) > 0,
{
    if ts.len() > 0 {
        assert(ts[0] <= now);
    }
}

} // verus!
