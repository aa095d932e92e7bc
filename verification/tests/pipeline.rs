use behest::cache::CacheTtl;
use behest::message::{ContentPart, Message};
use behest::pipeline::{record_to_message, ContextPipeline, PromptCacheConfig};
use behest::records::{MessageRecord, MessageRole};

fn record(role: MessageRole, text: &str) -> MessageRecord {
    MessageRecord::new(7, role, vec![ContentPart::text(text.to_owned())])
}

fn texts(ms: &[Message]) -> Vec<(String, String)> {
    ms.iter()
        .map(|m| {
            let kind = match m {
                Message::System { .. } => "system",
                Message::User { .. } => "user",
                Message::Assistant { .. } => "assistant",
                Message::Tool { .. } => "tool",
            };
            let text = match m.content().last() {
                Some(ContentPart::Text { text, .. }) => text.clone(),
                _ => String::new(),
            };
            (kind.to_owned(), text)
        })
        .collect()
}

fn pair(k: &str, t: &str) -> (String, String) {
    (k.to_owned(), t.to_owned())
}

#[test]
fn pipeline_defaults_and_builders() {
    let p = ContextPipeline::new();
    assert_eq!(p.max_history(), 50);
    assert_eq!(p.max_history_tokens(), 64_000);
    let p = p.with_max_history(10).with_max_history_tokens(500).with_compaction_filter(false);
    assert_eq!(p.max_history(), 10);
    assert_eq!(p.max_history_tokens(), 500);
}

#[test]
fn assembles_adapters_history_and_user_turn_in_order() {
    let p = ContextPipeline::new();
    let adapter = vec![Message::system_text("be brief".to_owned())];
    let records = vec![record(MessageRole::User, "q1"), record(MessageRole::Assistant, "a1")];
    let out = p.assemble_messages(adapter, records, Some("q2"));
    assert_eq!(
        texts(&out),
        vec![pair("system", "be brief"), pair("user", "q1"), pair("assistant", "a1"), pair("user", "q2")]
    );
}

#[test]
fn tool_records_without_identifiers_are_left_out() {
    let mut tool = record(MessageRole::Tool, "result");
    assert!(record_to_message(&tool).is_none());
    tool.tool_call_id = Some("c1".to_owned());
    tool.tool_name = Some("shell".to_owned());
    assert!(matches!(record_to_message(&tool), Some(Message::Tool { .. })));
    let out = ContextPipeline::new().assemble_messages(Vec::new(), vec![record(MessageRole::Tool, "x")], None);
    assert!(out.is_empty());
}

#[test]
fn token_budget_keeps_the_most_recent_history() {
    let p = ContextPipeline::new().with_max_history_tokens(1);
    let records = vec![record(MessageRole::User, "old"), record(MessageRole::Assistant, "newest")];
    let out = p.assemble_messages(Vec::new(), records, None);
    assert_eq!(texts(&out), vec![pair("assistant", "newest")]);
}

#[test]
fn cache_strategy_marks_the_conversation_tail() {
    let p = ContextPipeline::new().with_cache_strategy(PromptCacheConfig {
        enabled: true,
        auto_breakpoints: true,
        default_ttl: CacheTtl::FiveMinutes,
        min_system_tokens: 1_000_000,
    });
    let records = vec![record(MessageRole::User, "q1"), record(MessageRole::Assistant, "a1")];
    let out = p.assemble_messages(vec![Message::system_text("short".to_owned())], records, Some("q2"));
    // The system message is below the threshold; the assistant turn before
    // the new user turn gets the marker.
    assert!(out[0].content()[0].cache_control().is_none());
    assert!(out[2].content()[0].cache_control().is_some());
    assert!(out[3].content()[0].cache_control().is_none());
    let off = ContextPipeline::new().assemble_messages(
        Vec::new(),
        vec![record(MessageRole::Assistant, "a")],
        Some("q"),
    );
    assert!(off[0].content()[0].cache_control().is_none());
}
