use behest::compaction_prompt::{build_prompt, serialize_messages, truncate_if_too_long};
use behest::message::ContentPart;
use behest::records::{MessageRecord, MessageRole};

fn make_user_record(text: &str) -> MessageRecord {
    MessageRecord::new(
        uuid::Uuid::now_v7().as_u128(),
        MessageRole::User,
        vec![ContentPart::text(text.to_string())],
    )
}

#[test]
fn build_prompt_without_previous_summary() {
    let messages = vec![make_user_record("Hello, can you help me write a function?")];
    let prompt = build_prompt(&messages, None);
    assert!(prompt.contains("Create a new anchored summary"));
    assert!(prompt.contains("## Goal"));
    assert!(prompt.contains("Hello, can you help me write a function?"));
}

#[test]
fn build_prompt_with_previous_summary() {
    let messages = vec![make_user_record("Now add error handling.")];
    let prev = "## Goal\nWrite a function\n## Progress\n### Done\nCreated function";
    let prompt = build_prompt(&messages, Some(prev));
    assert!(prompt.contains("updating an existing summary"));
    assert!(prompt.contains("## Previous Summary"));
    assert!(prompt.contains("Created function"));
}

#[test]
fn serialize_includes_role_labels() {
    let records = vec![
        MessageRecord::new(
            uuid::Uuid::now_v7().as_u128(),
            MessageRole::User,
            vec![ContentPart::text("Hi".to_string())],
        ),
        MessageRecord::new(
            uuid::Uuid::now_v7().as_u128(),
            MessageRole::Assistant,
            vec![ContentPart::text("Hello!".to_string())],
        ),
    ];
    let text = serialize_messages(&records);
    assert!(text.contains("[User]: Hi"));
    assert!(text.contains("[Assistant]: Hello!"));
}

#[test]
fn truncate_long_content() {
    let long = "x".repeat(3_000);
    let result = truncate_if_too_long(&long, 2_000);
    assert!(result.len() < 3_000);
    assert!(result.contains("[truncated"));
}

#[test]
fn truncate_empty() {
    assert_eq!(truncate_if_too_long("", 100), "");
}

#[test]
fn truncate_reports_omitted_bytes() {
    assert_eq!(truncate_if_too_long("abcdef", 4), "abcd\n[truncated: omitted 2 chars]");
    assert_eq!(truncate_if_too_long("abcd", 4), "abcd");
}

#[test]
fn serialize_stops_after_token_limit() {
    let big = "y".repeat(1_500);
    let records: Vec<MessageRecord> = (0..200).map(|_| make_user_record(&big)).collect();
    let text = serialize_messages(&records);
    assert!(text.contains("further messages truncated"));
    assert!(text.len() < 200 * 1_500);
}

#[test]
fn serialize_lists_tool_calls_and_images() {
    let mut r = MessageRecord::new(
        1,
        MessageRole::Assistant,
        vec![ContentPart::image_url("http://x/y.png".to_string(), None)],
    );
    r.tool_calls.push(behest::tool_types::ToolCall::new(
        "c1".to_string(),
        "grep".to_string(),
        "{}".to_string(),
    ));
    let text = serialize_messages(&[r]);
    assert_eq!(text, "[Assistant]: [Image: http://x/y.png]\n  [Tool Call: grep({})]\n");
}
