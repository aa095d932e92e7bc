use behest::message::{ContentPart, Message};
use behest::records::{
    apply_compaction_filter, estimate_record_tokens, estimate_records_tokens, trim_by_tokens,
    parse_role, role_str, status_from_str, status_to_str, CompactionMeta, MessageRecord,
    MessageRole, ToolExecutionStatus,
};
use behest::breakpoints::{apply_message_cache_breakpoints, apply_tool_cache_breakpoints};
use behest::cache::CacheControl;
use behest::tool_types::ToolSpec;

fn new_id() -> u128 {
    uuid::Uuid::now_v7().as_u128()
}

fn make_record_for(session_id: u128, role: MessageRole, text: &str) -> MessageRecord {
    MessageRecord::new(session_id, role, vec![ContentPart::text(text.to_string())])
}

fn record_text(r: &MessageRecord) -> String {
    match &r.content[0] {
        ContentPart::Text { text, .. } => text.clone(),
        _ => String::new(),
    }
}

#[test]
fn estimate_record() {
    let record = MessageRecord::new(
        new_id(),
        MessageRole::User,
        vec![ContentPart::text("Hello".to_string())],
    );
    let tokens = estimate_record_tokens(&record);
    assert_eq!(tokens, 10);
}

#[test]
fn estimate_records_slice() {
    let records = vec![
        MessageRecord::new(new_id(), MessageRole::System, vec![ContentPart::text("System".to_string())]),
        MessageRecord::new(new_id(), MessageRole::User, vec![ContentPart::text("User".to_string())]),
    ];
    let total = estimate_records_tokens(&records);
    assert!(total > 0);
}

#[test]
fn trim_by_tokens_preserves_tail() {
    let sid = new_id();
    let records: Vec<MessageRecord> = (0..20)
        .map(|i| make_record_for(sid, MessageRole::User, &format!("msg{i:03}")))
        .collect();
    let trimmed = trim_by_tokens(records, 100);
    assert!(!trimmed.is_empty());
    assert!(trimmed.len() < 20);
}

#[test]
fn trim_by_tokens_all_when_under_budget() {
    let sid = new_id();
    let records = vec![
        make_record_for(sid, MessageRole::User, "hi"),
        make_record_for(sid, MessageRole::Assistant, "hello"),
    ];
    let trimmed = trim_by_tokens(records.clone(), 1000);
    assert_eq!(trimmed.len(), 2);
}

#[test]
fn trim_by_tokens_keeps_newest_and_at_least_one() {
    let sid = new_id();
    // each record: 2 tokens of text + 8 overhead = 10 tokens
    let records: Vec<MessageRecord> = (0..5)
        .map(|i| make_record_for(sid, MessageRole::User, &format!("m{i:04}")))
        .collect();
    let trimmed = trim_by_tokens(records.clone(), 25);
    assert_eq!(trimmed.len(), 2);
    assert_eq!(record_text(&trimmed[0]), "m0003");
    assert_eq!(record_text(&trimmed[1]), "m0004");
    let one = trim_by_tokens(records, 3);
    assert_eq!(one.len(), 1);
    assert_eq!(record_text(&one[0]), "m0004");
}

#[test]
fn filter_compacted_no_compaction_returns_unchanged() {
    let sid = new_id();
    let records = vec![
        make_record_for(sid, MessageRole::User, "a"),
        make_record_for(sid, MessageRole::Assistant, "b"),
    ];
    let filtered = apply_compaction_filter(records.clone());
    assert_eq!(filtered.len(), 2);
}

#[test]
fn filter_compacted_replaces_head_with_checkpoint() {
    let sid = new_id();
    let m1 = make_record_for(sid, MessageRole::User, "m1");
    let m2 = make_record_for(sid, MessageRole::Assistant, "m2");
    let m3 = make_record_for(sid, MessageRole::User, "m3");
    let m4 = make_record_for(sid, MessageRole::Assistant, "m4");
    let m3_id = m3.id;
    let mut compaction_user = make_record_for(sid, MessageRole::User, "[compaction]");
    compaction_user.is_compaction = true;
    compaction_user.compaction_meta = Some(CompactionMeta::new(m3_id));
    let mut summary = make_record_for(sid, MessageRole::Assistant, "Summary of m1-m2");
    summary.is_summary = true;
    summary.compaction_meta =
        Some(CompactionMeta::new(m3_id).with_summary("Summary of m1-m2".to_string()));
    let m5 = make_record_for(sid, MessageRole::User, "m5");
    let records = vec![m1, m2, m3, m4, compaction_user, summary, m5];
    let filtered = apply_compaction_filter(records);
    let texts: Vec<String> = filtered.iter().map(record_text).collect();
    assert_eq!(texts.len(), 4);
    assert!(texts[0].contains("conversation-checkpoint"));
    assert!(texts[0].contains("Summary of m1-m2"));
    assert_eq!(filtered[0].role, MessageRole::System);
    assert_eq!(&texts[1..], &["m3".to_string(), "m4".to_string(), "m5".to_string()]);
}

#[test]
fn summary_without_compaction_request_is_ignored() {
    let sid = new_id();
    let mut summary = make_record_for(sid, MessageRole::Assistant, "s");
    summary.is_summary = true;
    let records = vec![make_record_for(sid, MessageRole::User, "a"), summary];
    let filtered = apply_compaction_filter(records);
    assert_eq!(filtered.len(), 2);
}

#[test]
fn message_breakpoints_mark_system_and_tail() {
    let mut msgs = vec![
        Message::system_text("x".repeat(2000)),
        Message::user_text("earlier".to_string()),
        Message::assistant_text("reply".to_string()),
        Message::user_text("current".to_string()),
    ];
    apply_message_cache_breakpoints(&mut msgs, CacheControl::ephemeral(), 10);
    assert_eq!(msgs[0].content()[0].cache_control(), Some(CacheControl::ephemeral()));
    assert_eq!(msgs[1].content()[0].cache_control(), None);
    assert_eq!(msgs[2].content()[0].cache_control(), Some(CacheControl::ephemeral()));
    assert_eq!(msgs[3].content()[0].cache_control(), None);
}

#[test]
fn message_breakpoints_skip_short_system_prompt() {
    let mut msgs = vec![
        Message::system_text("short".to_string()),
        Message::assistant_text("a".to_string()),
        Message::user_text("current".to_string()),
    ];
    apply_message_cache_breakpoints(&mut msgs, CacheControl::ephemeral(), 1024);
    assert_eq!(msgs[0].content()[0].cache_control(), None);
    assert_eq!(msgs[1].content()[0].cache_control(), Some(CacheControl::ephemeral()));
}

#[test]
fn tool_breakpoints_keep_existing_markers() {
    let ctrl = CacheControl::ephemeral();
    let mut specs = vec![
        ToolSpec::new("a".to_string(), "d".to_string(), "{}".to_string()),
        ToolSpec::new("b".to_string(), "d".to_string(), "{}".to_string())
            .with_cache_control(ctrl.with_ttl(behest::cache::CacheTtl::OneHour)),
    ];
    apply_tool_cache_breakpoints(&mut specs, ctrl);
    assert_eq!(specs[0].cache_control, Some(ctrl));
    assert_eq!(specs[1].cache_control, Some(ctrl.with_ttl(behest::cache::CacheTtl::OneHour)));
}

#[test]
fn role_names_round_trip() {
    for role in [MessageRole::System, MessageRole::User, MessageRole::Assistant, MessageRole::Tool] {
        assert_eq!(parse_role(role_str(&role)), role);
    }
    assert_eq!(role_str(&MessageRole::Tool), "tool");
    assert_eq!(parse_role("robot"), MessageRole::User);
}

#[test]
fn execution_status_names_round_trip() {
    for status in [ToolExecutionStatus::Pending, ToolExecutionStatus::Success, ToolExecutionStatus::Failed] {
        assert_eq!(status_from_str(status_to_str(status)), status);
    }
    assert_eq!(status_to_str(ToolExecutionStatus::Failed), "failed");
    assert_eq!(status_from_str("unknown"), ToolExecutionStatus::Pending);
}
