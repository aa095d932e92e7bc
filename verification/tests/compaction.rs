use behest::budget::TokenBudget;
use behest::compaction::{
    apply_summary, autocompact, compact_candidates, compaction_system_prompt,
    compaction_user_prompt, extract_summary_tag, microcompact, summarize_tool_output,
    MicrocompactConfig,
};
use behest::message::{ContentPart, Message};

fn tool_msg(name: &str, content: &str) -> Message {
    Message::Tool {
        tool_call_id: format!("call_{name}"),
        name: name.to_string(),
        content: vec![ContentPart::text(content.to_string())],
    }
}

#[test]
fn microcompact_preserves_recent_messages() {
    let mut msgs = vec![
        Message::user_text("q1".to_string()),
        tool_msg(
            "echo",
            "some output\n42 lines\n42 lines\n42 lines\n42 lines\n42 lines",
        ),
    ];
    let config = MicrocompactConfig {
        keep_recent: 2,
        ..Default::default()
    };
    let report = microcompact(&mut msgs, config);
    assert_eq!(report.changed_messages, 0);
}

#[test]
fn microcompact_clears_old_tool_outputs() {
    let mut msgs = vec![
        Message::user_text("q1".to_string()),
        tool_msg("echo", &"very long output\n".repeat(20)),
        Message::user_text("q2".to_string()),
        Message::assistant_text("answer".to_string()),
    ];
    let config = MicrocompactConfig {
        keep_recent: 2,
        keep_recent_tool_outputs: 0,
    };
    let report = microcompact(&mut msgs, config);
    assert!(report.changed_messages > 0);
    let compacted = &msgs[1];
    if let Message::Tool { content, .. } = compacted {
        if let ContentPart::Text { text, .. } = &content[0] {
            assert!(text.contains("[echo]"), "expected [echo] prefix, got: {text}");
        }
    } else {
        panic!("expected tool message, got: {compacted:?}");
    }
}

#[test]
fn microcompact_preserves_non_tool_messages() {
    let mut msgs = vec![
        Message::user_text("q1".to_string()),
        Message::assistant_text("answer1".to_string()),
        tool_msg("bash", "output1"),
        Message::user_text("q2".to_string()),
        Message::assistant_text("answer2".to_string()),
    ];
    let config = MicrocompactConfig {
        keep_recent: 2,
        ..Default::default()
    };
    let _report = microcompact(&mut msgs, config);
    assert!(matches!(msgs[0], Message::User { .. }));
    assert!(matches!(msgs[3], Message::User { .. }));
}

#[test]
fn autocompact_drops_oldest_groups() {
    let long_text = "x".repeat(2000);
    let mut msgs = vec![
        Message::user_text(long_text.clone()),
        Message::assistant_text(long_text.clone()),
        Message::user_text(long_text.clone()),
        Message::assistant_text(long_text.clone()),
        Message::user_text(long_text.clone()),
        Message::assistant_text(long_text.clone()),
    ];
    let budget = TokenBudget::new(2000, 0);
    let report = autocompact(&mut msgs, &budget);
    assert!(report.groups_dropped > 0);
    assert!(report.groups_kept >= 1);
    assert!(msgs.len() < 6);
}

#[test]
fn autocompact_keeps_all_when_under_budget() {
    let mut msgs = vec![
        Message::user_text("q1".to_string()),
        Message::assistant_text("a1".to_string()),
    ];
    let budget = TokenBudget::new(1_000_000, 0);
    let report = autocompact(&mut msgs, &budget);
    assert_eq!(report.groups_dropped, 0);
    assert_eq!(msgs.len(), 2);
}

#[test]
fn compact_candidates_excludes_recent() {
    let msgs = vec![
        Message::user_text("old1".to_string()),
        Message::assistant_text("old2".to_string()),
        Message::user_text("new1".to_string()),
        Message::assistant_text("new2".to_string()),
    ];
    let candidates = compact_candidates(&msgs, 2);
    assert_eq!(candidates.len(), 2);
    assert!(matches!(candidates[0], Message::User { .. }));
}

#[test]
fn compact_candidates_empty_when_all_recent() {
    let msgs = vec![
        Message::user_text("hi".to_string()),
        Message::assistant_text("hey".to_string()),
    ];
    let candidates = compact_candidates(&msgs, 3);
    assert!(candidates.is_empty());
}

#[test]
fn apply_summary_replaces_old_messages() {
    let mut msgs = vec![
        Message::user_text("old question".to_string()),
        Message::assistant_text("old answer".to_string()),
        Message::user_text("new question".to_string()),
        Message::assistant_text("new answer".to_string()),
    ];
    let report = apply_summary(&mut msgs, "User asked about X. Assistant did Y.", 2);
    assert_eq!(report.messages_replaced, 2);
    assert_eq!(msgs.len(), 3);
    if let Message::System { content } = &msgs[0] {
        if let ContentPart::Text { text, .. } = &content[0] {
            assert!(text.contains("being continued"), "expected resume message, got: {text}");
        }
    } else {
        panic!("expected system message, got: {:?}", msgs[0]);
    }
}

#[test]
fn extract_summary_tag_works() {
    let input = "Some text\n<summary>\nThe actual summary\n</summary>\nMore text";
    let (result, extracted) = extract_summary_tag(input);
    assert!(extracted);
    assert_eq!(result, "The actual summary");
}

#[test]
fn extract_summary_tag_falls_back_to_full_text() {
    let input = "Just a plain summary, no tags";
    let (result, extracted) = extract_summary_tag(input);
    assert!(!extracted);
    assert_eq!(result, input.trim());
}

#[test]
fn summarize_tool_output_handles_exit_code() {
    let content = vec![ContentPart::text(
        "installing packages...\nexit 0\n42 lines total".to_string(),
    )];
    let result = summarize_tool_output("bash", &content);
    assert!(result.contains("[bash]"));
    assert!(result.contains("exit 0"));
}

#[test]
fn summarize_tool_output_handles_multiline() {
    let content = vec![ContentPart::text(
        "line1\nline2\nline3\nline4\nline5\nline6".to_string(),
    )];
    let result = summarize_tool_output("read_file", &content);
    assert!(result.contains("[read_file]"));
    assert!(result.contains("6 lines"));
}

#[test]
fn empty_messages_no_compaction() {
    let mut msgs: Vec<Message> = Vec::new();
    let report = microcompact(&mut msgs, MicrocompactConfig::default());
    assert_eq!(report.changed_messages, 0);
    let report = autocompact(&mut msgs, &TokenBudget::default());
    assert_eq!(report.groups_dropped, 0);
}

#[test]
fn compaction_prompts_contain_required_sections() {
    let system = compaction_system_prompt();
    assert!(system.contains("Primary Request"));
    assert!(system.contains("Key Technical Concepts"));
    assert!(system.contains("Pending Tasks"));
    assert!(system.contains("Current Work"));
    assert!(system.contains("Optional Next Step"));
    let user_prompt = compaction_user_prompt(false);
    assert!(user_prompt.contains("detailed summary"));
    let partial_prompt = compaction_user_prompt(true);
    assert!(partial_prompt.contains("RECENT portion"));
}

#[test]
fn apply_summary_keeps_all_when_few_messages() {
    let mut msgs = vec![Message::user_text("only".to_string())];
    let report = apply_summary(&mut msgs, "s", 3);
    assert_eq!(report.messages_replaced, 0);
    assert_eq!(msgs.len(), 1);
}

#[test]
fn autocompact_keeps_everything_that_fits_the_effective_window() {
    let text = "x".repeat(3000);
    let mut msgs = vec![Message::user_text(text.clone()), Message::user_text(text.clone())];
    let budget = TokenBudget::new(2000, 0);
    let report = autocompact(&mut msgs, &budget);
    assert_eq!(report.groups_dropped, 0);
    assert_eq!(msgs.len(), 2);
}
