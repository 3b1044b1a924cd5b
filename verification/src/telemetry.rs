//! In-process browsing metrics and lightweight span tracking.

use vstd::prelude::*;
use crate::text::owned;
use crate::assoc::clone_entries;

verus! {

/// Export wire format for spans and metrics.
#[derive(Debug, Clone, Copy, PartialEq, Eq, Structural)]
pub enum ExportFormat {
    /// OpenTelemetry Protocol over gRPC.
    Otlp,
    /// Jaeger UDP compact Thrift.
    Jaeger,
    /// Zipkin HTTP JSON v2.
    Zipkin,
    /// Pretty-printed to stdout.
    Console,
}

/// Aggregated metrics for a browsing session.
#[derive(Debug, Clone, Copy, PartialEq, Eq, Structural)]
pub struct BrowsingMetrics {
    pub pages_visited: u64,
    pub total_navigation_ms: u64,
    pub cache_hits: u64,
    pub cache_misses: u64,
    pub api_calls_discovered: u64,
    pub actions_executed: u64,
    pub errors_encountered: u64,
    pub session_duration_ms: u64,
}

/// All counters at zero.
pub open spec fn zero_metrics() -> BrowsingMetrics {
    BrowsingMetrics {
        pages_visited: 0,
        total_navigation_ms: 0,
        cache_hits: 0,
        cache_misses: 0,
        api_calls_discovered: 0,
        actions_executed: 0,
        errors_encountered: 0,
        session_duration_ms: 0,
    }
}

impl Default for BrowsingMetrics {
    fn default() -> (r: Self)
        ensures
            r == zero_metrics(),
    {
        BrowsingMetrics {
            pages_visited: 0,
            total_navigation_ms: 0,
            cache_hits: 0,
            cache_misses: 0,
            api_calls_discovered: 0,
            actions_executed: 0,
            errors_encountered: 0,
            session_duration_ms: 0,
        }
    }
}

/// Collects browsing metrics throughout a session.
pub struct MetricsCollector {
    metrics: BrowsingMetrics,
}

impl MetricsCollector {
    /// The current counters.
    pub closed spec fn current(&self) -> BrowsingMetrics {
        self.metrics
    }

    /// A collector with every counter at zero.
    pub fn new() -> (r: Self)
        ensures
            r.current() == zero_metrics(),
    {
        MetricsCollector { metrics: BrowsingMetrics::default() }
    }

    /// Record a page navigation of `duration_ms`.
    pub fn record_navigation(&mut self, duration_ms: u64)
        requires
            old(self).current().pages_visited < u64::MAX,
            old(self).current().total_navigation_ms + duration_ms <= u64::MAX,
        ensures
            final(self).current() == (BrowsingMetrics {
                pages_visited: (old(self).current().pages_visited + 1) as u64,
                total_navigation_ms: (old(self).current().total_navigation_ms + duration_ms) as u64,
                ..old(self).current()
            }),
    {
        self.metrics.pages_visited = self.metrics.pages_visited + 1;
        self.metrics.total_navigation_ms = self.metrics.total_navigation_ms + duration_ms;
    }

    /// Record a cache hit.
    pub fn record_cache_hit(&mut self)
        requires
            old(self).current().cache_hits < u64::MAX,
        ensures
            final(self).current() == (BrowsingMetrics {
                cache_hits: (old(self).current().cache_hits + 1) as u64,
                ..old(self).current()
            }),
    {
        self.metrics.cache_hits = self.metrics.cache_hits + 1;
    }

    /// Record a cache miss.
    pub fn record_cache_miss(&mut self)
        requires
            old(self).current().cache_misses < u64::MAX,
        ensures
            final(self).current() == (BrowsingMetrics {
                cache_misses: (old(self).current().cache_misses + 1) as u64,
                ..old(self).current()
            }),
    {
        self.metrics.cache_misses = self.metrics.cache_misses + 1;
    }

    /// Record an executed browser action.
    pub fn record_action(&mut self)
        requires
            old(self).current().actions_executed < u64::MAX,
        ensures
            final(self).current() == (BrowsingMetrics {
                actions_executed: (old(self).current().actions_executed + 1) as u64,
                ..old(self).current()
            }),
    {
        self.metrics.actions_executed = self.metrics.actions_executed + 1;
    }

    /// Record an error.
    pub fn record_error(&mut self)
        requires
            old(self).current().errors_encountered < u64::MAX,
        ensures
            final(self).current() == (BrowsingMetrics {
                errors_encountered: (old(self).current().errors_encountered + 1) as u64,
                ..old(self).current()
            }),
    {
        self.metrics.errors_encountered = self.metrics.errors_encountered + 1;
    }

    /// Record a discovered API endpoint.
    pub fn record_api_discovery(&mut self)
        requires
            old(self).current().api_calls_discovered < u64::MAX,
        ensures
            final(self).current() == (BrowsingMetrics {
                api_calls_discovered: (old(self).current().api_calls_discovered + 1) as u64,
                ..old(self).current()
            }),
    {
        self.metrics.api_calls_discovered = self.metrics.api_calls_discovered + 1;
    }

    /// A copy of the current counters.
    pub fn snapshot(&self) -> (r: BrowsingMetrics)
        ensures
            r == self.current(),
    {
        self.metrics
    }

    /// Reset every counter to zero.
    pub fn reset(&mut self)
        ensures
            final(self).current() == zero_metrics(),
    {
        self.metrics = BrowsingMetrics::default();
    }
}

// ---------------------------------------------------------------------------
// Spans
// ---------------------------------------------------------------------------

/// A lightweight span for tracing an operation. Times are milliseconds
/// since the Unix epoch.
#[derive(Debug, Clone)]
pub struct TrackedSpan {
    /// Span ID, increasing from 0 within its tracker.
    pub id: usize,
    pub name: String,
    pub attributes: Vec<(String, String)>,
    pub started_at: i64,
    /// `None` while the span is active.
    pub ended_at: Option<i64>,
    /// `None` while the span is active.
    pub duration_ms: Option<u64>,
}

/// `chrono::Utc::now().timestamp_millis()`: the current time in milliseconds
/// since the Unix epoch. It depends on the clock, so nothing is promised of
/// its value.
#[verifier::external_body]
pub(crate) fn now_unix_millis() -> (r: i64) {
    chrono::Utc::now().timestamp_millis()
}

/// Milliseconds from `start` to `end`, zero when `end` is earlier.
pub open spec fn elapsed_ms(start: i64, end: i64) -> u64 {
    if end <= start {
        0
    } else {
        (end - start) as u64
    }
}

/// `n` is span `o` ended at `now`.
pub open spec fn ended_version(n: TrackedSpan, o: TrackedSpan, now: i64) -> bool {
    &&& n.id == o.id
    &&& n.name@ == o.name@
    &&& n.attributes@ == o.attributes@
    &&& n.started_at == o.started_at
    &&& n.ended_at == Some(now)
    &&& n.duration_ms == Some(elapsed_ms(o.started_at, now))
}

/// The spans without an end time, in order.
pub open spec fn active_of(spans: Seq<TrackedSpan>) -> Seq<TrackedSpan>
    decreases spans.len(),
{
    if spans.len() == 0 {
        Seq::empty()
    } else if spans.last().ended_at is None {
        active_of(spans.drop_last()).push(spans.last())
    } else {
        active_of(spans.drop_last())
    }
}

/// The spans with an end time, in order.
pub open spec fn completed_of(spans: Seq<TrackedSpan>) -> Seq<TrackedSpan>
    decreases spans.len(),
{
    if spans.len() == 0 {
        Seq::empty()
    } else if spans.last().ended_at is Some {
        completed_of(spans.drop_last()).push(spans.last())
    } else {
        completed_of(spans.drop_last())
    }
}

/// Tracks spans for a browsing session.
pub struct SpanTracker {
    spans: Vec<TrackedSpan>,
    next_id: usize,
}

impl SpanTracker {
    /// All spans, active and completed, in the order they were started.
    pub closed spec fn all(&self) -> Seq<TrackedSpan> {
        self.spans@
    }

    /// The ID the next span will get.
    pub closed spec fn next(&self) -> usize {
        self.next_id
    }

    /// Span `i` has ID `i`, and the next ID is the number of spans.
    pub open spec fn wf(&self) -> bool {
        &&& self.next() == self.all().len()
        &&& forall|i: int| 0 <= i < self.all().len() ==> #[trigger] self.all()[i].id == i
    }

    /// An empty tracker.
    pub fn new() -> (r: Self)
        ensures
            r.wf(),
            r.all() == Seq::<TrackedSpan>::empty(),
    {
        SpanTracker { spans: Vec::new(), next_id: 0 }
    }

    /// Every span, active and completed, in start order.
    pub fn spans(&self) -> (r: &Vec<TrackedSpan>)
        ensures
            r@ == self.all(),
    {
        &self.spans
    }

    /// The spans not yet ended, in start order.
    pub fn active_spans(&self) -> (r: Vec<&TrackedSpan>)
        ensures
            r@.map_values(|s: &TrackedSpan| *s) == active_of(self.all()),
    {
        let mut r: Vec<&TrackedSpan> = Vec::new();
        let mut i: usize = 0;
        while i < self.spans.len()
            invariant
                i <= self.spans.len(),
                r@.map_values(|s: &TrackedSpan| *s) == active_of(self.spans@.take(i as int)),
            decreases self.spans.len() - i,
        {
            assert(self.spans@.take(i + 1).drop_last() =~= self.spans@.take(i as int));
            let ghost before = r@.map_values(|s: &TrackedSpan| *s);
            if self.spans[i].ended_at.is_none() {
                r.push(&self.spans[i]);
                assert(r@.map_values(|s: &TrackedSpan| *s) =~= before.push(self.spans@[i as int]));
            }
            i += 1;
        }
        assert(self.spans@.take(i as int) =~= self.spans@);
        r
    }

    /// The ended spans, in start order.
    pub fn completed_spans(&self) -> (r: Vec<&TrackedSpan>)
        ensures
            r@.map_values(|s: &TrackedSpan| *s) == completed_of(self.all()),
    {
        let mut r: Vec<&TrackedSpan> = Vec::new();
        let mut i: usize = 0;
        while i < self.spans.len()
            invariant
                i <= self.spans.len(),
                r@.map_values(|s: &TrackedSpan| *s) == completed_of(self.spans@.take(i as int)),
            decreases self.spans.len() - i,
        {
            assert(self.spans@.take(i + 1).drop_last() =~= self.spans@.take(i as int));
            let ghost before = r@.map_values(|s: &TrackedSpan| *s);
            if self.spans[i].ended_at.is_some() {
                r.push(&self.spans[i]);
                assert(r@.map_values(|s: &TrackedSpan| *s) =~= before.push(self.spans@[i as int]));
            }
            i += 1;
        }
        assert(self.spans@.take(i as int) =~= self.spans@);
        r
    }

    /// Start a span named `name`; returns its ID, which is the number of
    /// spans started before it.
    pub fn start_span(&mut self, name: &str, attributes: Vec<(String, String)>) -> (id: usize)
        requires
            old(self).wf(),
            old(self).all().len() < usize::MAX,
        ensures
            final(self).wf(),
            id == old(self).all().len(),
            final(self).all().len() == old(self).all().len() + 1,
            final(self).all().drop_last() == old(self).all(),
            final(self).all().last().id == id,
            final(self).all().last().name@ == name@,
            final(self).all().last().attributes == attributes,
            final(self).all().last().ended_at is None,
            final(self).all().last().duration_ms is None,
    {
        let id = self.next_id;
        self.next_id = self.next_id + 1;
        let started_at = now_unix_millis();
        let span = TrackedSpan {
            id,
            name: owned(name),
            attributes,
            started_at,
            ended_at: None,
            duration_ms: None,
        };
        let ghost before = self.spans@;
        self.spans.push(span);
        assert(self.spans@.drop_last() =~= before);
        id
    }

    /// End the span with ID `id`, recording the current time and the
    /// duration; an unknown ID changes nothing.
    pub fn end_span(&mut self, id: usize)
        requires
            old(self).wf(),
        ensures
            final(self).wf(),
            id >= old(self).all().len() ==> final(self).all() == old(self).all(),
            final(self).all().len() == old(self).all().len(),
            forall|j: int|
                0 <= j < old(self).all().len() && j != id ==> #[trigger] final(self).all()[j] == old(
                    self,
                ).all()[j],
            id < old(self).all().len() ==> exists|now: i64|
                ended_version(final(self).all()[id as int], old(self).all()[id as int], now),
    {
        if id < self.spans.len() {
            let now = now_unix_millis();
            let start = self.spans[id].started_at;
            let dur: u64 = if now <= start {
                0
            } else {
                let d: i128 = now as i128 - start as i128;
                assert(0 < d < 0x1_0000_0000_0000_0000);
                d as u64
            };
            assert(dur == elapsed_ms(start, now));
            let span = TrackedSpan {
                id: self.spans[id].id,
                name: self.spans[id].name.clone(),
                attributes: clone_entries(&self.spans[id].attributes),
                started_at: start,
                ended_at: Some(now),
                duration_ms: Some(dur),
            };
            let ghost before = self.spans@;
            assert(ended_version(span, before[id as int], now));
            self.spans.set(id, span);
            assert(ended_version(self.spans@[id as int], before[id as int], now));
        }
    }
}

/// Every span is either active or completed: the two counts add up to the
/// number of spans.
pub proof fn lemma_active_plus_completed(spans: Seq<TrackedSpan>)
    ensures
        active_of(spans).len() + completed_of(spans).len() == spans.len(),
    decreases spans.len(),
{
    if spans.len() > 0 {
        lemma_active_plus_completed(spans.drop_last());
    }
}

/// Ending a span that is active moves it from the active spans to the
/// completed ones: one fewer active, one more completed.
pub proof fn lemma_end_moves_span(spans: Seq<TrackedSpan>, n: Seq<TrackedSpan>, i: int)
    requires
        0 <= i < spans.len(),
        n.len() == spans.len(),
        forall|j: int| 0 <= j < spans.len() && j != i ==> n[j] == spans[j],
        spans[i].ended_at is None,
        n[i].ended_at is Some,
    ensures
        active_of(n).len() + 1 == active_of(spans).len(),
        completed_of(n).len() == completed_of(spans).len() + 1,
    decreases spans.len(),
{
    if i == spans.len() - 1 {
        assert(n.drop_last() =~= spans.drop_last());
    } else {
        assert(n.last() == spans.last());
        lemma_end_moves_span(spans.drop_last(), n.drop_last(), i);
    }
}

} // verus!
