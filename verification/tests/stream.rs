use behest::stream::{channel_name, hash_key, EventPublishError, RuntimeRoom, RuntimeStreamError};
use uuid::Uuid;

#[test]
fn run_room_display_is_stable() {
    let id = Uuid::nil();
    assert_eq!(RuntimeRoom::Run(id.as_u128()).name(), format!("run:{id}"));
}

#[test]
fn session_room_display_is_stable() {
    let id = Uuid::nil();
    assert_eq!(RuntimeRoom::Session(id.as_u128()).name(), format!("session:{id}"));
}

#[test]
fn provider_room_display_is_stable() {
    let expected = format!("provider:{}", "acme");
    assert_eq!(RuntimeRoom::Provider("acme".to_owned()).name(), expected);
}

#[test]
fn hash_key_format() {
    let sid = Uuid::parse_str("550e8400-e29b-41d4-a716-446655440000").unwrap();
    assert_eq!(hash_key(sid.as_u128()), "behest:session_data:550e8400-e29b-41d4-a716-446655440000");
}

#[test]
fn room_names_use_hyphenated_lowercase_uuids() {
    let v: u128 = 0x0123_4567_89ab_cdef_fedc_ba98_7654_3210;
    assert_eq!(RuntimeRoom::Run(v).name(), "run:01234567-89ab-cdef-fedc-ba9876543210");
    assert_eq!(
        channel_name(&RuntimeRoom::Session(v)),
        "rt:session:01234567-89ab-cdef-fedc-ba9876543210"
    );
    assert_eq!(channel_name(&RuntimeRoom::Provider("openai".to_owned())), "rt:provider:openai");
}

#[test]
fn stream_error_messages() {
    assert_eq!(
        RuntimeStreamError::Publish { message: "no listeners".to_owned() }.message(),
        "runtime stream publish failed: no listeners"
    );
    assert_eq!(
        RuntimeStreamError::Lagged { skipped: 12 }.message(),
        "runtime stream subscriber lagged, skipped 12 events"
    );
    assert_eq!(
        RuntimeStreamError::Subscribe { message: "refused".to_owned() }.message(),
        "runtime stream subscribe failed: refused"
    );
    assert_eq!(RuntimeStreamError::Closed.message(), "runtime stream closed");
    assert_eq!(
        EventPublishError::PublishFailed { message: "timeout".to_owned() }.message(),
        "runtime event publish failed: timeout"
    );
}

#[test]
fn envelope_reports_its_event_run_and_end() {
    let failed = behest::stream::RuntimeEventEnvelope {
        event_id: 1,
        seq: 3,
        run_id: 42,
        session_id: None,
        event: behest::agent_event::AgentEvent::RunFailed(behest::agent_event::RunFailed {
            run_id: 42,
            error: "boom".to_owned(),
            timestamp_ms: 10,
        }),
        emitted_at_ms: 11,
    };
    assert_eq!(failed.run_id(), 42);
    assert!(failed.is_terminal());
    let delta = behest::stream::RuntimeEventEnvelope {
        event_id: 2,
        seq: 4,
        run_id: 43,
        session_id: Some(5),
        event: behest::agent_event::AgentEvent::ContextBuilt(behest::agent_event::ContextBuilt {
            run_id: 43,
            message_count: 2,
            timestamp_ms: 10,
        }),
        emitted_at_ms: 11,
    };
    assert_eq!(delta.run_id(), 43);
    assert!(!delta.is_terminal());
}
