use behest::journal::{Journal, SessionEvent};
use behest::message::{ContentPart, Message};
use behest::recovery::{
    build_compaction_checkpoint, completion_reminder_message, inject_completion_reminder,
    inject_max_tokens_recovery, inject_permission_retry, max_tokens_recovery_message,
    permission_retry_message, snip_before_offset, CompletionRequirement,
};

fn extract_user_text(msg: &Message) -> String {
    if let Message::User { content, .. } = msg {
        content
            .iter()
            .filter_map(|p| match p {
                ContentPart::Text { text, .. } => Some(text.as_str()),
                _ => None,
            })
            .collect::<Vec<_>>()
            .join("")
    } else {
        String::new()
    }
}

#[test]
fn inject_max_tokens_recovery_appends_message() {
    let mut journal = Journal::new();
    let offset = inject_max_tokens_recovery(&mut journal, 1);
    let prompt = journal.build_prompt(&[]);
    assert_eq!(prompt.messages.len(), 1);
    let text = extract_user_text(&prompt.messages[0]);
    assert!(text.contains("Output token limit hit"));
    assert_eq!(offset, 0);
}

#[test]
fn inject_permission_retry_appends_message() {
    let mut journal = Journal::new();
    inject_permission_retry(&mut journal, 2, &["bash".to_string()]);
    let prompt = journal.build_prompt(&[]);
    let text = extract_user_text(&prompt.messages[0]);
    assert!(text.contains("permission-denied"));
    assert!(text.contains("bash"));
}

#[test]
fn inject_completion_reminder_lists_requirements() {
    let mut journal = Journal::new();
    let reqs = vec![
        CompletionRequirement::file("src/main.rs".to_string()),
        CompletionRequirement::any_file(),
    ];
    inject_completion_reminder(&mut journal, 3, &reqs);
    let prompt = journal.build_prompt(&[]);
    let text = extract_user_text(&prompt.messages[0]);
    assert!(text.contains("src/main.rs"));
    assert!(text.contains("filesystem tool"));
}

#[test]
fn snip_before_offset_drops_early_entries() {
    let mut journal = Journal::new();
    for i in 0..10 {
        journal.record(SessionEvent::MessageAppended {
            message: Message::user_text(format!("msg {i}")),
        });
    }
    assert_eq!(journal.len(), 10);
    let removed = snip_before_offset(&mut journal, 5);
    assert_eq!(removed, 5);
    assert_eq!(journal.len(), 5);
    assert_eq!(journal.entries()[0].offset, 5);
}

#[test]
fn snip_before_offset_zero_removes_all() {
    let mut journal = Journal::new();
    journal.record(SessionEvent::MessageAppended {
        message: Message::user_text("msg".to_string()),
    });
    let removed = snip_before_offset(&mut journal, 1);
    assert_eq!(removed, 1);
    assert!(journal.is_empty());
}

#[test]
fn snip_before_offset_at_or_past_end_removes_all() {
    let mut journal = Journal::new();
    journal.record(SessionEvent::MessageAppended {
        message: Message::user_text("msg".to_string()),
    });
    let removed = snip_before_offset(&mut journal, 1);
    assert_eq!(removed, 1);
    assert!(journal.is_empty());
}

#[test]
fn snip_before_offset_zero_keeps_all() {
    let mut journal = Journal::new();
    journal.record(SessionEvent::MessageAppended {
        message: Message::user_text("msg".to_string()),
    });
    let removed = snip_before_offset(&mut journal, 0);
    assert_eq!(removed, 0);
    assert_eq!(journal.len(), 1);
}

#[test]
fn build_compaction_checkpoint_preserves_messages() {
    let cp = build_compaction_checkpoint(
        5,
        "Summary of early convo".to_string(),
        vec![Message::assistant_text("recent answer".to_string())],
    );
    assert_eq!(cp.compacted_until_offset, 5);
    assert_eq!(cp.summary.as_deref(), Some("Summary of early convo"));
    assert_eq!(cp.preserved_messages.len(), 1);
}

#[test]
fn max_tokens_recovery_message_resumes_directly() {
    let msg = max_tokens_recovery_message(1);
    assert!(msg.contains("Resume directly"));
    assert!(msg.contains("no apology"));
}

#[test]
fn permission_retry_message_lists_tools() {
    let msg = permission_retry_message(1, &["bash".to_string(), "rm".to_string()]);
    assert!(msg.contains("bash"));
    assert!(msg.contains("rm"));
}

#[test]
fn completion_reminder_message_for_file_requirement() {
    let reqs = vec![CompletionRequirement::file("output.txt".to_string())];
    let msg = completion_reminder_message(1, &reqs);
    assert!(msg.contains("output.txt"));
    assert!(msg.contains("filesystem tool"));
}

#[test]
fn completion_requirement_file_constructor() {
    let req = CompletionRequirement::file("test.rs".to_string());
    assert!(matches!(
        req,
        CompletionRequirement::WorkspaceFile { path: Some(_) }
    ));
    assert!(req.render().contains("test.rs"));
}

#[test]
fn completion_requirement_any_file_constructor() {
    let req = CompletionRequirement::any_file();
    assert!(matches!(
        req,
        CompletionRequirement::WorkspaceFile { path: None }
    ));
    assert!(req.render().contains("a file in the workspace"));
}

#[test]
fn recovery_messages_are_nonempty() {
    assert!(!max_tokens_recovery_message(1).is_empty());
    assert!(!permission_retry_message(1, &[]).is_empty());
    assert!(!completion_reminder_message(1, &[]).is_empty());
}

#[test]
fn permission_retry_message_with_no_tools_is_stable() {
    assert_eq!(permission_retry_message(1, &[]), permission_retry_message(2, &[]));
}
