use behest::agent_event::{AgentEvent, CacheMetrics, RunCompleted, RunStarted, UsageRecorded};
use behest::cache_stats::{stats_event, CacheStats, StatsEvent};
use behest::message::{FinishReason, TokenUsage};
use behest::stream::RuntimeEventEnvelope;

const RUN: u128 = 0x0123_4567_89ab_cdef_0123_4567_89ab_cdef;

fn usage_event(input: u64, output: u64) -> AgentEvent {
    AgentEvent::UsageRecorded(UsageRecorded {
        run_id: RUN,
        usage: TokenUsage::new(input, output),
        timestamp_ms: 1_700_000_000_000,
    })
}

fn cache_metrics_event(creation: u64, read: u64, cached: u64) -> AgentEvent {
    AgentEvent::CacheMetrics(CacheMetrics {
        run_id: RUN,
        cache_creation_input_tokens: creation,
        cache_read_input_tokens: read,
        cached_input_tokens: cached,
        timestamp_ms: 1_700_000_000_000,
    })
}

fn usage_stats(input: u64, output: u64) -> StatsEvent {
    StatsEvent::UsageRecorded { input_tokens: input, output_tokens: output }
}

fn cache_stats_event(creation: u64, read: u64, cached: u64) -> StatsEvent {
    StatsEvent::CacheMetrics {
        cache_creation_input_tokens: creation,
        cache_read_input_tokens: read,
        cached_input_tokens: cached,
    }
}

fn run_completed() -> AgentEvent {
    AgentEvent::RunCompleted(RunCompleted {
        run_id: RUN,
        finish_reason: FinishReason::Stop,
        iterations: 1,
        timestamp_ms: 1_700_000_000_000,
    })
}

fn envelope(seq: u64, event: AgentEvent) -> RuntimeEventEnvelope {
    RuntimeEventEnvelope {
        event_id: 1000 + seq as u128,
        seq,
        run_id: RUN,
        session_id: Some(7),
        event,
        emitted_at_ms: 1_700_000_000_000,
    }
}

fn hit_rate_percent(stats: &CacheStats) -> String {
    let (hits, total) = stats.hit_fraction();
    let rate = if total == 0 { 0.0 } else { hits as f64 / total as f64 };
    format!("{:.2}", rate * 100.0)
}

#[test]
fn from_events_aggregates_usage_and_cache() {
    let events = vec![
        usage_event(1000, 50),
        cache_metrics_event(800, 0, 0),
        usage_event(500, 30),
        cache_metrics_event(0, 400, 0),
    ];
    let stats = CacheStats::from_events(&events);
    assert_eq!(stats.call_count, 2);
    assert_eq!(stats.total_input_tokens, 1500);
    assert_eq!(stats.total_output_tokens, 80);
    assert_eq!(stats.total_cache_creation_input_tokens, 800);
    assert_eq!(stats.total_cache_read_input_tokens, 400);
    assert_eq!(stats.total_cached_input_tokens, 0);
}

#[test]
fn from_events_ignores_non_usage_events() {
    let events = vec![run_completed(), usage_event(500, 20)];
    let stats = CacheStats::from_events(&events);
    assert_eq!(stats.call_count, 1);
    assert_eq!(stats.total_input_tokens, 500);
}

#[test]
fn merge_sums_all_fields() {
    let a = CacheStats {
        call_count: 2,
        total_input_tokens: 1000,
        total_output_tokens: 50,
        total_cache_creation_input_tokens: 800,
        total_cache_read_input_tokens: 200,
        total_cached_input_tokens: 0,
    };
    let b = CacheStats {
        call_count: 3,
        total_input_tokens: 2000,
        total_output_tokens: 100,
        total_cache_creation_input_tokens: 0,
        total_cache_read_input_tokens: 0,
        total_cached_input_tokens: 1500,
    };
    let merged = a.merge(b);
    assert_eq!(merged.call_count, 5);
    assert_eq!(merged.total_input_tokens, 3000);
    assert_eq!(merged.total_output_tokens, 150);
    assert_eq!(merged.total_cache_creation_input_tokens, 800);
    assert_eq!(merged.total_cache_read_input_tokens, 200);
    assert_eq!(merged.total_cached_input_tokens, 1500);
}

#[test]
fn total_cache_tokens_sums_three_fields() {
    let stats = CacheStats {
        total_cache_creation_input_tokens: 100,
        total_cache_read_input_tokens: 200,
        total_cached_input_tokens: 300,
        ..Default::default()
    };
    assert_eq!(stats.total_cache_tokens(), 600);
}

#[test]
fn display_format_includes_all_fields() {
    let stats = CacheStats {
        call_count: 1,
        total_input_tokens: 1000,
        total_output_tokens: 50,
        total_cache_creation_input_tokens: 800,
        total_cache_read_input_tokens: 200,
        total_cached_input_tokens: 0,
    };
    let s = stats.render(&hit_rate_percent(&stats));
    assert!(s.contains("model calls:           1"));
    assert!(s.contains("total input tokens:    1000"));
    assert!(s.contains("cache hit rate:"));
}

#[test]
fn cache_hit_rate_mixes_anthropic_and_openai() {
    let events = vec![usage_event(1000, 50), cache_metrics_event(0, 200, 100)];
    let stats = CacheStats::from_events(&events);
    assert_eq!(stats.hit_fraction(), (300, 1300));
    let (hits, total) = stats.hit_fraction();
    let rate = hits as f64 / total as f64;
    assert!((rate - 300.0 / 1300.0).abs() < 1e-9);
}

#[test]
fn merge_saturates_instead_of_wrapping() {
    let a = CacheStats { call_count: u64::MAX, ..Default::default() };
    let b = CacheStats { call_count: 1, ..Default::default() };
    assert_eq!(a.merge(b).call_count, u64::MAX);
}

#[test]
fn from_events_of_concatenation_is_merge() {
    let first = vec![usage_stats(10, 1), cache_stats_event(1, 2, 3)];
    let second = vec![usage_stats(5, 5), StatsEvent::Other];
    let mut both = first.clone();
    both.extend(second.iter().copied());
    assert_eq!(
        CacheStats::from_stats_events(&both),
        CacheStats::from_stats_events(&first).merge(CacheStats::from_stats_events(&second))
    );
}

#[test]
fn render_exact_text() {
    let stats = CacheStats { call_count: 1, total_input_tokens: 2, ..Default::default() };
    assert_eq!(
        stats.render("0.00"),
        "CacheStats {\n  model calls:           1\n  total input tokens:    2\n  total output tokens:   0\n  cache writes (Anthropic): 0\n  cache reads (Anthropic/DeepSeek): 0\n  cached input (OpenAI): 0\n  total cache tokens:    0\n  cache hit rate:        0.00%\n}"
    );
}

#[test]
fn cache_metrics_event_only_when_some_cache_count() {
    let plain = TokenUsage::new(10, 5);
    assert_eq!(behest::cache_stats::cache_metrics_event(&plain), None);
    let zeros = TokenUsage::new(10, 5).with_cache_stats(Some(0), Some(0), None);
    assert_eq!(behest::cache_stats::cache_metrics_event(&zeros), None);
    let some = TokenUsage::new(10, 5).with_cache_stats(None, Some(700), Some(3));
    assert_eq!(
        behest::cache_stats::cache_metrics_event(&some),
        Some(StatsEvent::CacheMetrics {
            cache_creation_input_tokens: 0,
            cache_read_input_tokens: 700,
            cached_input_tokens: 3,
        })
    );
}

#[test]
fn from_events_aggregates_openai_cached_tokens() {
    let events = vec![
        usage_event(2000, 100),
        cache_metrics_event(0, 0, 1500), // OpenAI: 1500 of 2000 cached
    ];
    let stats = CacheStats::from_events(&events);
    assert_eq!(stats.total_cached_input_tokens, 1500);
    // hit rate: cached / (input + cached) = 1500 / 3500
    let (hits, total) = stats.hit_fraction();
    let rate = hits as f64 / total as f64;
    assert!((rate - 1500.0 / 3500.0).abs() < 1e-9);
}

#[test]
fn cache_hit_rate_zero_when_no_input() {
    let stats = CacheStats::default();
    assert_eq!(stats.hit_fraction(), (0, 0));
    assert_eq!(hit_rate_percent(&stats), "0.00");
}

#[test]
fn from_envelopes_handles_empty_list() {
    let stats = CacheStats::from_envelopes(&[]);
    assert_eq!(stats, CacheStats::default());
}

#[test]
fn from_envelopes_aggregates() {
    let events = vec![
        AgentEvent::RunStarted(RunStarted {
            run_id: RUN,
            session_id: 7,
            provider: "anthropic".to_owned(),
            model: "sonnet-3-model".to_owned(),
            timestamp_ms: 1_700_000_000_000,
        }),
        usage_event(1000, 100),
        cache_metrics_event(0, 500, 0),
    ];
    let a = CacheStats::from_events(&events);
    let envelopes: Vec<RuntimeEventEnvelope> =
        events.into_iter().enumerate().map(|(i, e)| envelope(i as u64, e)).collect();
    let b = CacheStats::from_envelopes(&envelopes);
    assert_eq!(a, b);
    assert_eq!(b.call_count, 1);
    assert_eq!(b.total_input_tokens, 1000);
    assert_eq!(b.total_cache_read_input_tokens, 500);
}

#[test]
fn stats_event_reads_usage_and_cache_only() {
    assert_eq!(stats_event(&usage_event(3, 4)), usage_stats(3, 4));
    assert_eq!(stats_event(&cache_metrics_event(1, 2, 3)), cache_stats_event(1, 2, 3));
    assert_eq!(stats_event(&run_completed()), StatsEvent::Other);
}

#[test]
fn from_events_agrees_with_from_stats_events() {
    let events = vec![usage_event(7, 8), run_completed(), cache_metrics_event(9, 10, 11)];
    let read: Vec<StatsEvent> = events.iter().map(stats_event).collect();
    assert_eq!(CacheStats::from_events(&events), CacheStats::from_stats_events(&read));
}

#[test]
fn cache_metrics_payload_total() {
    let m = CacheMetrics {
        run_id: RUN,
        cache_creation_input_tokens: 5,
        cache_read_input_tokens: 6,
        cached_input_tokens: 7,
        timestamp_ms: 0,
    };
    assert_eq!(m.total_cache_tokens(), 18);
}
