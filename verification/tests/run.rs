use behest::message::{ContentPart, Message, TokenUsage};
use behest::run::{transition, RunAction, RunConfig, RunInput, RunState};
use behest::tool_types::ToolCall;

fn make_config() -> RunConfig {
    RunConfig::default()
}

#[test]
fn idle_to_building_context_on_user_message() {
    let (next, actions) = transition(
        &RunState::Idle,
        RunInput::UserMessageReceived {
            content: vec![ContentPart::text("hello".to_string())],
        },
        &make_config(),
    );
    assert_eq!(next, RunState::BuildingContext);
    assert!(matches!(actions.as_slice(), [RunAction::Noop]));
}

#[test]
fn idle_cancellation_aborts() {
    let (next, actions) = transition(
        &RunState::Idle,
        RunInput::CancellationRequested,
        &make_config(),
    );
    assert_eq!(next, RunState::Aborted);
    assert!(matches!(actions.as_slice(), [RunAction::AbortRun { .. }]));
}

#[test]
fn calling_model_with_tool_calls_transitions_to_executing() {
    let msg = Message::Assistant {
        content: vec![],
        tool_calls: vec![ToolCall::new(
            "call_1".to_string(),
            "search".to_string(),
            serde_json::Value::Null.to_string(),
        )],
    };
    let (next, actions) = transition(
        &RunState::CallingModel,
        RunInput::ModelCompleted {
            message: msg,
            usage: TokenUsage::new(100, 50),
        },
        &make_config(),
    );
    assert_eq!(next, RunState::ExecutingTools);
    assert!(matches!(actions.as_slice(), [RunAction::ExecuteTool { .. }]));
}

#[test]
fn calling_model_without_tools_finishes() {
    let msg = Message::assistant_text("done".to_string());
    let (next, actions) = transition(
        &RunState::CallingModel,
        RunInput::ModelCompleted {
            message: msg,
            usage: TokenUsage::new(100, 50),
        },
        &make_config(),
    );
    assert_eq!(next, RunState::Finished);
    assert!(matches!(actions.as_slice(), [RunAction::FinishRun { .. }]));
}

#[test]
fn terminal_states_no_transition() {
    for state in &[RunState::Finished, RunState::Aborted] {
        let (next, actions) = transition(
            state,
            RunInput::UserMessageReceived {
                content: vec![ContentPart::text("hello".to_string())],
            },
            &make_config(),
        );
        assert_eq!(next, *state);
        assert!(actions.is_empty());
    }
}

#[test]
fn approval_granted_executes_tool() {
    let (next, actions) = transition(
        &RunState::WaitingApproval,
        RunInput::ToolApprovalGranted {
            call_id: "call_1".to_string(),
        },
        &make_config(),
    );
    assert_eq!(next, RunState::ExecutingTools);
    assert!(matches!(actions.as_slice(), [RunAction::ExecuteTool { .. }]));
}

#[test]
fn approval_rejected_goes_to_building_context() {
    let (next, _actions) = transition(
        &RunState::WaitingApproval,
        RunInput::ToolApprovalRejected {
            call_id: "call_1".to_string(),
            reason: Some("too dangerous".to_string()),
        },
        &make_config(),
    );
    assert_eq!(next, RunState::BuildingContext);
}

#[test]
fn deterministic_same_input_same_output() {
    let state = RunState::Idle;
    let config = make_config();
    let input = RunInput::UserMessageReceived {
        content: vec![ContentPart::text("hello".to_string())],
    };
    let (next1, actions1) = transition(&state, input.clone(), &config);
    let (next2, actions2) = transition(&state, input, &config);
    assert_eq!(next1, next2);
    assert_eq!(format!("{actions1:?}"), format!("{actions2:?}"));
}

#[test]
fn streaming_chunks_keep_streaming_state() {
    let (next, actions) = transition(
        &RunState::StreamingModel,
        RunInput::ModelChunkReceived {
            delta: "hello".to_string(),
        },
        &make_config(),
    );
    assert_eq!(next, RunState::StreamingModel);
    assert!(matches!(actions.as_slice(), [RunAction::Noop]));
}

#[test]
fn model_states_abort_on_cancellation() {
    for state in &[RunState::CallingModel, RunState::StreamingModel] {
        let (next, actions) = transition(state, RunInput::CancellationRequested, &make_config());
        assert_eq!(next, RunState::Aborted);
        assert!(matches!(actions.as_slice(), [RunAction::AbortRun { .. }]));
    }
}
