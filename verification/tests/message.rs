use behest::cache::CacheControl;
use behest::message::{ContentPart, Message, TokenUsage};

#[test]
fn token_usage_new_has_no_cache_stats() {
    let usage = TokenUsage::new(10, 5);
    assert_eq!(usage.input_tokens, 10);
    assert_eq!(usage.output_tokens, 5);
    assert_eq!(usage.total_tokens, 15);
    assert_eq!(usage.cache_creation_input_tokens, None);
    assert_eq!(usage.cache_read_input_tokens, None);
    assert_eq!(usage.cached_input_tokens, None);
}

#[test]
fn token_usage_with_cache_stats_populates_fields() {
    let usage = TokenUsage::new(100, 50).with_cache_stats(Some(80), Some(20), None);
    assert_eq!(usage.cache_creation_input_tokens, Some(80));
    assert_eq!(usage.cache_read_input_tokens, Some(20));
    assert_eq!(usage.cached_input_tokens, None);
}

#[test]
fn token_usage_cache_tokens_sums_all_three_fields() {
    let usage = TokenUsage::new(100, 50).with_cache_stats(Some(10), Some(20), Some(30));
    assert_eq!(usage.cache_tokens(), 60);
}

#[test]
fn token_usage_cache_tokens_zero_when_all_none() {
    let usage = TokenUsage::new(100, 50);
    assert_eq!(usage.cache_tokens(), 0);
}

#[test]
fn token_usage_merge_sums_numeric_fields() {
    let a = TokenUsage::new(100, 50);
    let b = TokenUsage::new(200, 30);
    let merged = a.merge(b);
    assert_eq!(merged.input_tokens, 300);
    assert_eq!(merged.output_tokens, 80);
    assert_eq!(merged.total_tokens, 380);
}

#[test]
fn token_usage_merge_both_none_yields_none() {
    let a = TokenUsage::new(100, 50);
    let b = TokenUsage::new(200, 30);
    let merged = a.merge(b);
    assert_eq!(merged.cache_creation_input_tokens, None);
    assert_eq!(merged.cache_read_input_tokens, None);
    assert_eq!(merged.cached_input_tokens, None);
}

#[test]
fn token_usage_merge_one_some_passes_through() {
    let a = TokenUsage::new(100, 50).with_cache_stats(Some(40), Some(20), Some(10));
    let b = TokenUsage::new(200, 30);
    let merged = a.merge(b);
    assert_eq!(merged.cache_creation_input_tokens, Some(40));
    assert_eq!(merged.cache_read_input_tokens, Some(20));
    assert_eq!(merged.cached_input_tokens, Some(10));
}

#[test]
fn token_usage_merge_both_some_sums() {
    let a = TokenUsage::new(100, 50).with_cache_stats(Some(40), Some(20), Some(10));
    let b = TokenUsage::new(200, 30).with_cache_stats(Some(60), Some(80), Some(90));
    let merged = a.merge(b);
    assert_eq!(merged.cache_creation_input_tokens, Some(100));
    assert_eq!(merged.cache_read_input_tokens, Some(100));
    assert_eq!(merged.cached_input_tokens, Some(100));
}

#[test]
fn mark_cache_breakpoint_marks_last_part_only() {
    let m = Message::User {
        content: vec![
            ContentPart::text("a".to_string()),
            ContentPart::text("b".to_string()),
        ],
    }
    .mark_cache_breakpoint();
    let parts = m.content();
    assert_eq!(parts[0].cache_control(), None);
    assert_eq!(parts[1].cache_control(), Some(CacheControl::ephemeral()));
}

#[test]
fn message_kind_predicates() {
    assert!(Message::user_text("x".to_string()).is_user());
    assert!(Message::system_text("x".to_string()).is_system());
    assert!(Message::tool_text("id".to_string(), "t".to_string(), "x".to_string()).is_tool());
    assert!(!Message::assistant_text("x".to_string()).is_user());
}

#[test]
fn token_usage_merge_sums_reported_totals() {
    let a = TokenUsage { input_tokens: 1, output_tokens: 1, total_tokens: 5, ..TokenUsage::new(0, 0) };
    let b = TokenUsage::new(0, 0);
    assert_eq!(a.merge(b).total_tokens, 5);
}
