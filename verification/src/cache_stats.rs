//! Prompt-cache statistics aggregated over a window of run events.
use vstd::prelude::*;
use vstd::string::*;

use crate::agent_event::AgentEvent;
use crate::message::{opt_or_zero, TokenUsage};
use crate::stream::RuntimeEventEnvelope;
use crate::text::{decimal, push_decimal};

verus! {

broadcast use vstd::string::group_string_axioms;

/// What the statistics read of a run event: the token usage of one model
/// call, the cache counters of one call, or anything else.
#[derive(Debug, Clone, Copy, PartialEq, Eq, Structural)]
pub enum StatsEvent {
    /// One model call's usage.
    UsageRecorded { input_tokens: u64, output_tokens: u64 },
    /// One call's prompt-cache counters.
    CacheMetrics {
        cache_creation_input_tokens: u64,
        cache_read_input_tokens: u64,
        cached_input_tokens: u64,
    },
    /// Any other event.
    Other,
}

/// Aggregated prompt-cache statistics over a window of events. Every
/// field stops at `u64::MAX` instead of wrapping.
#[derive(Debug, Clone, Copy, PartialEq, Eq, Structural)]
pub struct CacheStats {
    /// Number of usage events.
    pub call_count: u64,
    /// Sum of input tokens.
    pub total_input_tokens: u64,
    /// Sum of output tokens.
    pub total_output_tokens: u64,
    /// Sum of tokens written to a cache entry (Anthropic).
    pub total_cache_creation_input_tokens: u64,
    /// Sum of tokens read from a cache entry (Anthropic, DeepSeek).
    pub total_cache_read_input_tokens: u64,
    /// Sum of cached input tokens (OpenAI).
    pub total_cached_input_tokens: u64,
}

impl Default for CacheStats {
    fn default() -> (r: Self)
        ensures
            r == zero_stats(),
    {
        CacheStats {
            call_count: 0,
            total_input_tokens: 0,
            total_output_tokens: 0,
            total_cache_creation_input_tokens: 0,
            total_cache_read_input_tokens: 0,
            total_cached_input_tokens: 0,
        }
    }
}

/// All counts zero.
pub open spec fn zero_stats() -> CacheStats {
    CacheStats {
        call_count: 0,
        total_input_tokens: 0,
        total_output_tokens: 0,
        total_cache_creation_input_tokens: 0,
        total_cache_read_input_tokens: 0,
        total_cached_input_tokens: 0,
    }
}

/// Exact (unbounded) totals of a window of events.
pub struct StatsTotals {
    pub calls: int,
    pub input: int,
    pub output: int,
    pub creation: int,
    pub read: int,
    pub cached: int,
}

/// The exact totals of a window of events.
pub open spec fn totals(e: Seq<StatsEvent>) -> StatsTotals
    decreases e.len(),
{
    if e.len() == 0 {
        StatsTotals { calls: 0, input: 0, output: 0, creation: 0, read: 0, cached: 0 }
    } else {
        let t = totals(e.drop_last());
        match e.last() {
            StatsEvent::UsageRecorded { input_tokens, output_tokens } => StatsTotals {
                calls: t.calls + 1,
                input: t.input + input_tokens,
                output: t.output + output_tokens,
                ..t
            },
            StatsEvent::CacheMetrics {
                cache_creation_input_tokens,
                cache_read_input_tokens,
                cached_input_tokens,
            } => StatsTotals {
                creation: t.creation + cache_creation_input_tokens,
                read: t.read + cache_read_input_tokens,
                cached: t.cached + cached_input_tokens,
                ..t
            },
            StatsEvent::Other => t,
        }
    }
}

/// A count, or `u64::MAX` when it does not fit.
pub open spec fn sat(x: int) -> u64 {
    if x > u64::MAX {
        u64::MAX
    } else if x < 0 {
        0
    } else {
        x as u64
    }
}

/// Totals as statistics, each stopping at `u64::MAX`.
pub open spec fn saturate(t: StatsTotals) -> CacheStats {
    CacheStats {
        call_count: sat(t.calls),
        total_input_tokens: sat(t.input),
        total_output_tokens: sat(t.output),
        total_cache_creation_input_tokens: sat(t.creation),
        total_cache_read_input_tokens: sat(t.read),
        total_cached_input_tokens: sat(t.cached),
    }
}

proof fn lemma_totals_nonneg(e: Seq<StatsEvent>)
    ensures
        totals(e).calls >= 0,
        totals(e).input >= 0,
        totals(e).output >= 0,
        totals(e).creation >= 0,
        totals(e).read >= 0,
        totals(e).cached >= 0,
    decreases e.len(),
{
    if e.len() > 0 {
        lemma_totals_nonneg(e.drop_last());
    }
}

fn sat_add(a: u64, b: u64) -> (r: u64)
    ensures
        r == sat(a + b),
{
    if a > u64::MAX - b {
        u64::MAX
    } else {
        a + b
    }
}

impl CacheStats {
    /// The statistics of a window of events, read in arrival order: each
    /// usage event counts one call and adds its input and output tokens;
    /// each cache event adds its three counters; other events are ignored.
    pub fn from_stats_events(events: &[StatsEvent]) -> (r: Self)
        ensures
            r == saturate(totals(events@)),
    {
        let mut stats = CacheStats::default();
        let mut i: usize = 0;
        assert(events@.take(0) =~= Seq::<StatsEvent>::empty());
        while i < events.len()
            invariant
                i <= events.len(),
                stats == saturate(totals(events@.take(i as int))),
            decreases events.len() - i,
        {
            assert(events@.take(i + 1).drop_last() =~= events@.take(i as int));
            proof {
                lemma_totals_nonneg(events@.take(i as int));
            }
            match events[i] {
                StatsEvent::UsageRecorded { input_tokens, output_tokens } => {
                    stats.call_count = sat_add(stats.call_count, 1);
                    stats.total_input_tokens = sat_add(stats.total_input_tokens, input_tokens);
                    stats.total_output_tokens = sat_add(stats.total_output_tokens, output_tokens);
                },
                StatsEvent::CacheMetrics {
                    cache_creation_input_tokens,
                    cache_read_input_tokens,
                    cached_input_tokens,
                } => {
                    stats.total_cache_creation_input_tokens =
                        sat_add(stats.total_cache_creation_input_tokens, cache_creation_input_tokens);
                    stats.total_cache_read_input_tokens =
                        sat_add(stats.total_cache_read_input_tokens, cache_read_input_tokens);
                    stats.total_cached_input_tokens =
                        sat_add(stats.total_cached_input_tokens, cached_input_tokens);
                },
                StatsEvent::Other => {},
            }
            i = i + 1;
        }
        assert(events@.take(events.len() as int) =~= events@);
        stats
    }

    /// The cache tokens across the three provider-specific counters.
    pub fn total_cache_tokens(&self) -> (r: u64)
        requires
            self.total_cache_creation_input_tokens + self.total_cache_read_input_tokens
                + self.total_cached_input_tokens <= u64::MAX,
        ensures
            r == self.total_cache_creation_input_tokens + self.total_cache_read_input_tokens
                + self.total_cached_input_tokens,
    {
        self.total_cache_creation_input_tokens + self.total_cache_read_input_tokens
            + self.total_cached_input_tokens
    }

    /// The cache hit fraction as (hits, total): the tokens served from a
    /// cache entry (read and cached), over all input tokens processed
    /// (fresh input, cache writes, cache reads and cached input). A total
    /// of zero means no input.
    pub fn hit_fraction(&self) -> (r: (u128, u128))
        ensures
            r.0 == self.total_cache_read_input_tokens + self.total_cached_input_tokens,
            r.1 == self.total_input_tokens + self.total_cache_creation_input_tokens
                + self.total_cache_read_input_tokens + self.total_cached_input_tokens,
    {
        let hits = self.total_cache_read_input_tokens as u128 + self.total_cached_input_tokens as u128;
        let total = self.total_input_tokens as u128 + self.total_cache_creation_input_tokens as u128
            + hits;
        (hits, total)
    }

    /// Field-by-field sum, each field stopping at `u64::MAX`.
    pub fn merge(self, other: Self) -> (r: Self)
        ensures
            r == spec_merge(self, other),
    {
        CacheStats {
            call_count: sat_add(self.call_count, other.call_count),
            total_input_tokens: sat_add(self.total_input_tokens, other.total_input_tokens),
            total_output_tokens: sat_add(self.total_output_tokens, other.total_output_tokens),
            total_cache_creation_input_tokens: sat_add(
                self.total_cache_creation_input_tokens,
                other.total_cache_creation_input_tokens,
            ),
            total_cache_read_input_tokens: sat_add(
                self.total_cache_read_input_tokens,
                other.total_cache_read_input_tokens,
            ),
            total_cached_input_tokens: sat_add(
                self.total_cached_input_tokens,
                other.total_cached_input_tokens,
            ),
        }
    }

    /// The statistics as text, one labelled count per line, with the hit
    /// rate given as already formatted text (a percentage).
    pub fn render(&self, hit_rate_percent: &str) -> (r: String)
        requires
            self.total_cache_creation_input_tokens + self.total_cache_read_input_tokens
                + self.total_cached_input_tokens <= u64::MAX,
        ensures
            r@ == render_text(*self, hit_rate_percent@),
    {
        let mut s = String::from_str("CacheStats {\n  model calls:           ");
        push_decimal(&mut s, self.call_count);
        s.append("\n  total input tokens:    ");
        push_decimal(&mut s, self.total_input_tokens);
        s.append("\n  total output tokens:   ");
        push_decimal(&mut s, self.total_output_tokens);
        s.append("\n  cache writes (Anthropic): ");
        push_decimal(&mut s, self.total_cache_creation_input_tokens);
        s.append("\n  cache reads (Anthropic/DeepSeek): ");
        push_decimal(&mut s, self.total_cache_read_input_tokens);
        s.append("\n  cached input (OpenAI): ");
        push_decimal(&mut s, self.total_cached_input_tokens);
        s.append("\n  total cache tokens:    ");
        push_decimal(&mut s, self.total_cache_tokens());
        s.append("\n  cache hit rate:        ");
        s.append(hit_rate_percent);
        s.append("%\n}");
        s
    }
}

/// Field-by-field sum, each field stopping at `u64::MAX`.
pub open spec fn spec_merge(a: CacheStats, b: CacheStats) -> CacheStats {
    CacheStats {
        call_count: sat(a.call_count + b.call_count),
        total_input_tokens: sat(a.total_input_tokens + b.total_input_tokens),
        total_output_tokens: sat(a.total_output_tokens + b.total_output_tokens),
        total_cache_creation_input_tokens: sat(
            a.total_cache_creation_input_tokens + b.total_cache_creation_input_tokens,
        ),
        total_cache_read_input_tokens: sat(
            a.total_cache_read_input_tokens + b.total_cache_read_input_tokens,
        ),
        total_cached_input_tokens: sat(a.total_cached_input_tokens + b.total_cached_input_tokens),
    }
}

/// The text of the statistics.
pub open spec fn render_text(s: CacheStats, pct: Seq<char>) -> Seq<char> {
    "CacheStats {\n  model calls:           "@ + decimal(s.call_count as nat)
        + "\n  total input tokens:    "@ + decimal(s.total_input_tokens as nat)
        + "\n  total output tokens:   "@ + decimal(s.total_output_tokens as nat)
        + "\n  cache writes (Anthropic): "@ + decimal(s.total_cache_creation_input_tokens as nat)
        + "\n  cache reads (Anthropic/DeepSeek): "@ + decimal(s.total_cache_read_input_tokens as nat)
        + "\n  cached input (OpenAI): "@ + decimal(s.total_cached_input_tokens as nat)
        + "\n  total cache tokens:    "@ + decimal(
        (s.total_cache_creation_input_tokens + s.total_cache_read_input_tokens
            + s.total_cached_input_tokens) as nat,
    ) + "\n  cache hit rate:        "@ + pct + "%\n}"@
}

proof fn lemma_totals_append(a: Seq<StatsEvent>, b: Seq<StatsEvent>)
    ensures
        totals(a + b).calls == totals(a).calls + totals(b).calls,
        totals(a + b).input == totals(a).input + totals(b).input,
        totals(a + b).output == totals(a).output + totals(b).output,
        totals(a + b).creation == totals(a).creation + totals(b).creation,
        totals(a + b).read == totals(a).read + totals(b).read,
        totals(a + b).cached == totals(a).cached + totals(b).cached,
    decreases b.len(),
{
    if b.len() == 0 {
        assert(a + b =~= a);
    } else {
        assert((a + b).drop_last() =~= a + b.drop_last());
        assert((a + b).last() == b.last());
        lemma_totals_append(a, b.drop_last());
    }
}

/// The statistics of a single event: a usage event is one call with its
/// input and output tokens; a cache event adds its three cache counters and
/// no call; any other event leaves every count at zero.
pub proof fn lemma_single_event(e: StatsEvent)
    ensures
        ({
            let s = saturate(totals(seq![e]));
            match e {
                StatsEvent::UsageRecorded { input_tokens, output_tokens } => s == CacheStats {
                    call_count: 1,
                    total_input_tokens: input_tokens,
                    total_output_tokens: output_tokens,
                    total_cache_creation_input_tokens: 0,
                    total_cache_read_input_tokens: 0,
                    total_cached_input_tokens: 0,
                },
                StatsEvent::CacheMetrics {
                    cache_creation_input_tokens,
                    cache_read_input_tokens,
                    cached_input_tokens,
                } => s == CacheStats {
                    call_count: 0,
                    total_input_tokens: 0,
                    total_output_tokens: 0,
                    total_cache_creation_input_tokens: cache_creation_input_tokens,
                    total_cache_read_input_tokens: cache_read_input_tokens,
                    total_cached_input_tokens: cached_input_tokens,
                },
                StatsEvent::Other => s == CacheStats {
                    call_count: 0,
                    total_input_tokens: 0,
                    total_output_tokens: 0,
                    total_cache_creation_input_tokens: 0,
                    total_cache_read_input_tokens: 0,
                    total_cached_input_tokens: 0,
                },
            }
        }),
{
    assert(seq![e].drop_last() =~= Seq::<StatsEvent>::empty());
    assert(seq![e].last() == e);
    assert(totals(Seq::<StatsEvent>::empty()) == (StatsTotals {
        calls: 0,
        input: 0,
        output: 0,
        creation: 0,
        read: 0,
        cached: 0,
    }));
    assert(totals(seq![e]) == {
        let t = totals(seq![e].drop_last());
        match e {
            StatsEvent::UsageRecorded { input_tokens, output_tokens } => StatsTotals {
                calls: t.calls + 1,
                input: t.input + input_tokens,
                output: t.output + output_tokens,
                ..t
            },
            StatsEvent::CacheMetrics {
                cache_creation_input_tokens,
                cache_read_input_tokens,
                cached_input_tokens,
            } => StatsTotals {
                creation: t.creation + cache_creation_input_tokens,
                read: t.read + cache_read_input_tokens,
                cached: t.cached + cached_input_tokens,
                ..t
            },
            StatsEvent::Other => t,
        }
    });
}

/// Merging adds each count, stopping at `u64::MAX` instead of wrapping.
pub proof fn lemma_merge_adds(a: CacheStats, b: CacheStats)
    ensures
        a.call_count + b.call_count <= u64::MAX ==> spec_merge(a, b).call_count == a.call_count
            + b.call_count,
        a.call_count + b.call_count > u64::MAX ==> spec_merge(a, b).call_count == u64::MAX,
        a.total_input_tokens + b.total_input_tokens <= u64::MAX ==> spec_merge(a, b).total_input_tokens
            == a.total_input_tokens + b.total_input_tokens,
        a.total_output_tokens + b.total_output_tokens <= u64::MAX ==> spec_merge(
            a,
            b,
        ).total_output_tokens == a.total_output_tokens + b.total_output_tokens,
        a.total_cache_creation_input_tokens + b.total_cache_creation_input_tokens <= u64::MAX
            ==> spec_merge(a, b).total_cache_creation_input_tokens
            == a.total_cache_creation_input_tokens + b.total_cache_creation_input_tokens,
        a.total_cache_read_input_tokens + b.total_cache_read_input_tokens <= u64::MAX ==> spec_merge(
            a,
            b,
        ).total_cache_read_input_tokens == a.total_cache_read_input_tokens
            + b.total_cache_read_input_tokens,
        a.total_cached_input_tokens + b.total_cached_input_tokens <= u64::MAX ==> spec_merge(
            a,
            b,
        ).total_cached_input_tokens == a.total_cached_input_tokens + b.total_cached_input_tokens,
{
}

/// Statistics over two windows merge into those over both: reading
/// `a` then `b` gives what merging the statistics of `a` and of `b` gives.
pub proof fn lemma_from_events_append(a: Seq<StatsEvent>, b: Seq<StatsEvent>)
    ensures
        saturate(totals(a + b)) == spec_merge(saturate(totals(a)), saturate(totals(b))),
{
    lemma_totals_append(a, b);
    lemma_totals_nonneg(a);
    lemma_totals_nonneg(b);
}

/// Merging is commutative and associative, and the empty statistics are
/// its identity.
pub proof fn lemma_merge_laws(a: CacheStats, b: CacheStats, c: CacheStats)
    ensures
        spec_merge(a, b) == spec_merge(b, a),
        spec_merge(spec_merge(a, b), c) == spec_merge(a, spec_merge(b, c)),
        spec_merge(a, zero_stats()) == a,
{
}

/// The cache counters a model call's usage reports, each absent count
/// taken as zero; none when all three are zero.
pub open spec fn spec_cache_metrics(u: TokenUsage) -> Option<StatsEvent> {
    let creation = opt_or_zero(u.cache_creation_input_tokens);
    let read = opt_or_zero(u.cache_read_input_tokens);
    let cached = opt_or_zero(u.cached_input_tokens);
    if creation == 0 && read == 0 && cached == 0 {
        None
    } else {
        Some(
            StatsEvent::CacheMetrics {
                cache_creation_input_tokens: creation as u64,
                cache_read_input_tokens: read as u64,
                cached_input_tokens: cached as u64,
            },
        )
    }
}

/// The cache-metrics event to emit for a model call's usage, if any.
pub fn cache_metrics_event(usage: &TokenUsage) -> (r: Option<StatsEvent>)
    ensures
        r == spec_cache_metrics(*usage),
{
    let creation = usage.cache_creation_input_tokens.unwrap_or(0);
    let read = usage.cache_read_input_tokens.unwrap_or(0);
    let cached = usage.cached_input_tokens.unwrap_or(0);
    if creation == 0 && read == 0 && cached == 0 {
        None
    } else {
        Some(
            StatsEvent::CacheMetrics {
                cache_creation_input_tokens: creation,
                cache_read_input_tokens: read,
                cached_input_tokens: cached,
            },
        )
    }
}

/// What the statistics read of a runtime event.
pub open spec fn stats_event_of(e: AgentEvent) -> StatsEvent {
    match e {
        AgentEvent::UsageRecorded(u) => StatsEvent::UsageRecorded {
            input_tokens: u.usage.input_tokens,
            output_tokens: u.usage.output_tokens,
        },
        AgentEvent::CacheMetrics(c) => StatsEvent::CacheMetrics {
            cache_creation_input_tokens: c.cache_creation_input_tokens,
            cache_read_input_tokens: c.cache_read_input_tokens,
            cached_input_tokens: c.cached_input_tokens,
        },
        _ => StatsEvent::Other,
    }
}

/// What the statistics read of a sequence of runtime events.
pub open spec fn stats_events_of(s: Seq<AgentEvent>) -> Seq<StatsEvent> {
    s.map_values(|e: AgentEvent| stats_event_of(e))
}

/// What the statistics read of a runtime event.
pub fn stats_event(e: &AgentEvent) -> (r: StatsEvent)
    ensures
        r == stats_event_of(*e),
{
    match e {
        AgentEvent::UsageRecorded(u) => StatsEvent::UsageRecorded {
            input_tokens: u.usage.input_tokens,
            output_tokens: u.usage.output_tokens,
        },
        AgentEvent::CacheMetrics(c) => StatsEvent::CacheMetrics {
            cache_creation_input_tokens: c.cache_creation_input_tokens,
            cache_read_input_tokens: c.cache_read_input_tokens,
            cached_input_tokens: c.cached_input_tokens,
        },
        _ => StatsEvent::Other,
    }
}

impl CacheStats {
    /// The statistics of a window of runtime events (see
    /// [`CacheStats::from_stats_events`]).
    pub fn from_events(events: &[AgentEvent]) -> (r: Self)
        ensures
            r == saturate(totals(stats_events_of(events@))),
    {
        let mut read: Vec<StatsEvent> = Vec::new();
        let mut i: usize = 0;
        while i < events.len()
            invariant
                i <= events.len(),
                read@ == stats_events_of(events@).take(i as int),
            decreases events.len() - i,
        {
            read.push(stats_event(&events[i]));
            assert(read@ =~= stats_events_of(events@).take(i + 1));
            i = i + 1;
        }
        assert(read@ =~= stats_events_of(events@));
        CacheStats::from_stats_events(read.as_slice())
    }

    /// The statistics of the events of a window of envelopes.
    pub fn from_envelopes(envelopes: &[RuntimeEventEnvelope]) -> (r: Self)
        ensures
            r == saturate(totals(envelopes@.map_values(|e: RuntimeEventEnvelope| stats_event_of(e.event)))),
    {
        let mut read: Vec<StatsEvent> = Vec::new();
        let mut i: usize = 0;
        while i < envelopes.len()
            invariant
                i <= envelopes.len(),
                read@ == envelopes@.map_values(|e: RuntimeEventEnvelope| stats_event_of(e.event)).take(i as int),
            decreases envelopes.len() - i,
        {
            read.push(stats_event(&envelopes[i].event));
            assert(read@ =~= envelopes@.map_values(|e: RuntimeEventEnvelope| stats_event_of(e.event)).take(i + 1));
            i = i + 1;
        }
        assert(read@ =~= envelopes@.map_values(|e: RuntimeEventEnvelope| stats_event_of(e.event)));
        CacheStats::from_stats_events(read.as_slice())
    }
}

} // verus!
