//! Sans-IO run state machine for the agent prompt loop.
//!
//! [`transition`] maps `(state, input, config)` to the next state and the
//! actions that the runtime must execute.

use vstd::prelude::*;

use crate::message::{
    ContentPart, ContentPartView, FinishReason, Message, MessageView, TokenUsage, msg_tool_calls,
    parts_view,
};
use crate::tool_types::{ToolCall, ToolCallView, calls_view, clone_calls};

verus! {

/// The state of a single agent run.
#[derive(Debug, Clone, Copy, PartialEq, Eq, Structural)]
pub enum RunState {
    /// Ready to accept a user message.
    Idle,
    /// Building the context for the model call.
    BuildingContext,
    /// Waiting for a non-streaming model response.
    CallingModel,
    /// Receiving streaming chunks.
    StreamingModel,
    /// Processing the completed response.
    ProcessingResponse,
    /// Executing requested tool calls.
    ExecutingTools,
    /// Waiting for human approval of a tool call.
    WaitingApproval,
    /// Compacting conversation memory.
    Compacting,
    /// Demoting old messages.
    Demoting,
    /// Completed successfully.
    Finished,
    /// Aborted by an error or cancellation.
    Aborted,
}

/// Whether a state is terminal.
pub open spec fn is_terminal(s: RunState) -> bool {
    s == RunState::Finished || s == RunState::Aborted
}

/// Abstract value of a run input.
pub enum RunInputView {
    /// A user message.
    UserMessageReceived { content: Seq<ContentPartView> },
    /// A streaming text chunk.
    ModelChunkReceived { delta: Seq<char> },
    /// The model completed its response.
    ModelCompleted { message: MessageView, usage: TokenUsage },
    /// Tool calls were requested.
    ToolCallRequested { calls: Seq<ToolCallView> },
    /// A tool execution completed.
    ToolResultReceived { call_id: Seq<char>, output: Seq<char> },
    /// Approval was granted.
    ToolApprovalGranted { call_id: Seq<char> },
    /// Approval was rejected.
    ToolApprovalRejected { call_id: Seq<char>, reason: Option<Seq<char>> },
    /// Compaction completed.
    MemoryCompactionCompleted { summary: Seq<char> },
    /// A runtime error occurred.
    RuntimeErrorReceived { error: Seq<char> },
    /// Cancellation was requested.
    CancellationRequested,
}

/// Input events that drive the state machine.
#[derive(Debug)]
pub enum RunInput {
    /// A user message has been received.
    UserMessageReceived {
        /// Content parts of the user message.
        content: Vec<ContentPart>,
    },
    /// A streaming text chunk was received.
    ModelChunkReceived {
        /// Incremental text.
        delta: String,
    },
    /// The model completed its response.
    ModelCompleted {
        /// The complete assistant message.
        message: Message,
        /// Token usage of this call.
        usage: TokenUsage,
    },
    /// Tool calls were requested by the model.
    ToolCallRequested {
        /// The calls to execute.
        calls: Vec<ToolCall>,
    },
    /// A tool execution completed.
    ToolResultReceived {
        /// The answered call.
        call_id: String,
        /// The tool output, as serialized JSON text.
        output: String,
    },
    /// Human approval was granted.
    ToolApprovalGranted {
        /// The approved call.
        call_id: String,
    },
    /// Human approval was rejected.
    ToolApprovalRejected {
        /// The rejected call.
        call_id: String,
        /// Optional reason.
        reason: Option<String>,
    },
    /// Memory compaction completed.
    MemoryCompactionCompleted {
        /// Summary produced by the compactor.
        summary: String,
    },
    /// A runtime-level error occurred.
    RuntimeErrorReceived {
        /// Error description.
        error: String,
    },
    /// Cancellation was requested.
    CancellationRequested,
}

impl View for RunInput {
    type V = RunInputView;

    open spec fn view(&self) -> RunInputView {
        match self {
            RunInput::UserMessageReceived { content } => RunInputView::UserMessageReceived {
                content: parts_view(content@),
            },
            RunInput::ModelChunkReceived { delta } => RunInputView::ModelChunkReceived {
                delta: delta@,
            },
            RunInput::ModelCompleted { message, usage } => RunInputView::ModelCompleted {
                message: message@,
                usage: *usage,
            },
            RunInput::ToolCallRequested { calls } => RunInputView::ToolCallRequested {
                calls: calls_view(calls@),
            },
            RunInput::ToolResultReceived { call_id, output } => RunInputView::ToolResultReceived {
                call_id: call_id@,
                output: output@,
            },
            RunInput::ToolApprovalGranted { call_id } => RunInputView::ToolApprovalGranted {
                call_id: call_id@,
            },
            RunInput::ToolApprovalRejected { call_id, reason } => RunInputView::ToolApprovalRejected {
                call_id: call_id@,
                reason: crate::message::opt_view(*reason),
            },
            RunInput::MemoryCompactionCompleted { summary } => RunInputView::MemoryCompactionCompleted {
                summary: summary@,
            },
            RunInput::RuntimeErrorReceived { error } => RunInputView::RuntimeErrorReceived {
                error: error@,
            },
            RunInput::CancellationRequested => RunInputView::CancellationRequested,
        }
    }
}

impl Clone for RunInput {
    fn clone(&self) -> (r: Self)
        ensures
            r@ == self@,
    {
        match self {
            RunInput::UserMessageReceived { content } => RunInput::UserMessageReceived {
                content: crate::message::clone_parts(content),
            },
            RunInput::ModelChunkReceived { delta } => RunInput::ModelChunkReceived {
                delta: delta.clone(),
            },
            RunInput::ModelCompleted { message, usage } => RunInput::ModelCompleted {
                message: message.clone(),
                usage: *usage,
            },
            RunInput::ToolCallRequested { calls } => RunInput::ToolCallRequested {
                calls: clone_calls(calls),
            },
            RunInput::ToolResultReceived { call_id, output } => RunInput::ToolResultReceived {
                call_id: call_id.clone(),
                output: output.clone(),
            },
            RunInput::ToolApprovalGranted { call_id } => RunInput::ToolApprovalGranted {
                call_id: call_id.clone(),
            },
            RunInput::ToolApprovalRejected { call_id, reason } => RunInput::ToolApprovalRejected {
                call_id: call_id.clone(),
                reason: crate::message::clone_opt_string(reason),
            },
            RunInput::MemoryCompactionCompleted { summary } => RunInput::MemoryCompactionCompleted {
                summary: summary.clone(),
            },
            RunInput::RuntimeErrorReceived { error } => RunInput::RuntimeErrorReceived {
                error: error.clone(),
            },
            RunInput::CancellationRequested => RunInput::CancellationRequested,
        }
    }
}

/// Abstract value of a finish reason.
pub enum FinishReasonView {
    /// Natural stop.
    Stop,
    /// Tool calls produced.
    ToolCalls,
    /// Length limit.
    Length,
    /// Content filter.
    ContentFilter,
    /// Provider error.
    Error,
    /// Provider-specific reason.
    Unknown(Seq<char>),
}

impl View for FinishReason {
    type V = FinishReasonView;

    open spec fn view(&self) -> FinishReasonView {
        match self {
            FinishReason::Stop => FinishReasonView::Stop,
            FinishReason::ToolCalls => FinishReasonView::ToolCalls,
            FinishReason::Length => FinishReasonView::Length,
            FinishReason::ContentFilter => FinishReasonView::ContentFilter,
            FinishReason::Error => FinishReasonView::Error,
            FinishReason::Unknown(s) => FinishReasonView::Unknown(s@),
        }
    }
}

/// Abstract value of a run action.
pub enum RunActionView {
    /// Execute tool calls.
    ExecuteTool { calls: Seq<ToolCallView> },
    /// Ask for approval of one call.
    RequestToolApproval { call: ToolCallView, reason: Seq<char> },
    /// Compact memory.
    CompactMemory,
    /// Demote memory.
    DemoteMemory,
    /// Finish the run.
    FinishRun { reason: FinishReasonView, usage: TokenUsage },
    /// Abort the run.
    AbortRun { error: Seq<char> },
    /// Nothing to do.
    Noop,
}

/// Actions produced by the state machine for the runtime to execute.
#[derive(Debug)]
pub enum RunAction {
    /// Execute one or more tool calls.
    ExecuteTool {
        /// The calls to execute.
        calls: Vec<ToolCall>,
    },
    /// Request human approval before executing a tool.
    RequestToolApproval {
        /// The call needing approval.
        call: ToolCall,
        /// Why approval is needed.
        reason: String,
    },
    /// Compact conversation memory.
    CompactMemory,
    /// Demote old messages to long-term storage.
    DemoteMemory,
    /// The run has finished.
    FinishRun {
        /// Reason for finishing.
        reason: FinishReason,
        /// Token usage of the run.
        usage: TokenUsage,
    },
    /// The run was aborted.
    AbortRun {
        /// The error that caused the abort.
        error: String,
    },
    /// No action needed.
    Noop,
}

impl View for RunAction {
    type V = RunActionView;

    open spec fn view(&self) -> RunActionView {
        match self {
            RunAction::ExecuteTool { calls } => RunActionView::ExecuteTool { calls: calls_view(calls@) },
            RunAction::RequestToolApproval { call, reason } => RunActionView::RequestToolApproval {
                call: call@,
                reason: reason@,
            },
            RunAction::CompactMemory => RunActionView::CompactMemory,
            RunAction::DemoteMemory => RunActionView::DemoteMemory,
            RunAction::FinishRun { reason, usage } => RunActionView::FinishRun {
                reason: reason@,
                usage: *usage,
            },
            RunAction::AbortRun { error } => RunActionView::AbortRun { error: error@ },
            RunAction::Noop => RunActionView::Noop,
        }
    }
}

/// The views of a list of actions.
pub open spec fn actions_view(s: Seq<RunAction>) -> Seq<RunActionView> {
    s.map_values(|a: RunAction| a@)
}

/// Configuration of the run state machine.
#[derive(Debug, Clone, Copy)]
pub struct RunConfig {
    /// Maximum number of model/tool iterations.
    pub max_iterations: usize,
    /// Maximum total tokens over all model calls.
    pub max_tokens: Option<usize>,
    /// Whether to continue when a tool fails.
    pub continue_on_tool_failure: bool,
}

impl Default for RunConfig {
    fn default() -> (r: Self)
        ensures
            r.max_iterations == 10,
            r.max_tokens is None,
            r.continue_on_tool_failure,
    {
        RunConfig { max_iterations: 10, max_tokens: None, continue_on_tool_failure: true }
    }
}

/// A single no-op action.
pub open spec fn noop() -> Seq<RunActionView> {
    seq![RunActionView::Noop]
}

/// An abort with the given error text.
pub open spec fn abort(e: Seq<char>) -> Seq<RunActionView> {
    seq![RunActionView::AbortRun { error: e }]
}

/// Outcome of a completed model response: execute its tool calls when it
/// requested any, otherwise finish with the given usage.
pub open spec fn on_completed(m: MessageView, usage: TokenUsage) -> (RunState, Seq<RunActionView>) {
    if msg_tool_calls(m).len() > 0 {
        (RunState::ExecutingTools, seq![RunActionView::ExecuteTool { calls: msg_tool_calls(m) }])
    } else {
        (RunState::Finished, seq![RunActionView::FinishRun { reason: FinishReasonView::Stop, usage }])
    }
}

/// Usage with zero input and output tokens.
pub open spec fn zero_usage() -> TokenUsage {
    TokenUsage {
        input_tokens: 0,
        output_tokens: 0,
        total_tokens: 0,
        cache_creation_input_tokens: None,
        cache_read_input_tokens: None,
        cached_input_tokens: None,
    }
}

/// The transition relation of the run state machine.
pub open spec fn spec_transition(s: RunState, i: RunInputView) -> (RunState, Seq<RunActionView>) {
    if is_terminal(s) {
        (s, Seq::empty())
    } else {
        match (s, i) {
            (RunState::Idle, RunInputView::UserMessageReceived { .. }) => (
                RunState::BuildingContext,
                noop(),
            ),
            (RunState::Idle, RunInputView::CancellationRequested) => (
                RunState::Aborted,
                abort("cancelled before start"@),
            ),
            (RunState::BuildingContext, RunInputView::UserMessageReceived { .. }) => (
                RunState::CallingModel,
                noop(),
            ),
            (RunState::CallingModel, RunInputView::ModelChunkReceived { .. }) => (
                RunState::StreamingModel,
                noop(),
            ),
            (RunState::CallingModel, RunInputView::ModelCompleted { message, .. }) => on_completed(
                message,
                zero_usage(),
            ),
            (RunState::CallingModel, RunInputView::RuntimeErrorReceived { error }) => (
                RunState::Aborted,
                abort(error),
            ),
            (RunState::CallingModel, RunInputView::CancellationRequested) => (
                RunState::Aborted,
                abort("cancelled"@),
            ),
            (RunState::StreamingModel, RunInputView::ModelChunkReceived { .. }) => (
                RunState::StreamingModel,
                noop(),
            ),
            (RunState::StreamingModel, RunInputView::ModelCompleted { message, usage }) => on_completed(
                message,
                usage,
            ),
            (RunState::StreamingModel, RunInputView::RuntimeErrorReceived { error }) => (
                RunState::Aborted,
                abort(error),
            ),
            (RunState::StreamingModel, RunInputView::CancellationRequested) => (
                RunState::Aborted,
                abort("cancelled"@),
            ),
            (RunState::ProcessingResponse, RunInputView::ToolCallRequested { calls }) => (
                RunState::ExecutingTools,
                seq![RunActionView::ExecuteTool { calls }],
            ),
            (RunState::ExecutingTools, RunInputView::ToolResultReceived { .. }) => (
                RunState::ExecutingTools,
                noop(),
            ),
            (RunState::ExecutingTools, RunInputView::RuntimeErrorReceived { .. }) => (
                RunState::BuildingContext,
                noop(),
            ),
            (RunState::WaitingApproval, RunInputView::ToolApprovalGranted { call_id }) => (
                RunState::ExecutingTools,
                seq![
                    RunActionView::ExecuteTool {
                        calls: seq![
                            ToolCallView { id: call_id, name: Seq::empty(), arguments: "null"@ },
                        ],
                    },
                ],
            ),
            (RunState::WaitingApproval, RunInputView::ToolApprovalRejected { .. }) => (
                RunState::BuildingContext,
                noop(),
            ),
            (RunState::Compacting, RunInputView::MemoryCompactionCompleted { .. }) => (
                RunState::BuildingContext,
                noop(),
            ),
            _ => (s, noop()),
        }
    }
}

/// A vector holding one action.
fn one(a: RunAction) -> (r: Vec<RunAction>)
    ensures
        actions_view(r@) == seq![a@],
{
    let mut v = Vec::new();
    v.push(a);
    proof {
        assert(actions_view(v@) =~= seq![a@]);
    }
    v
}

/// A vector holding one no-op action.
fn noop_actions() -> (r: Vec<RunAction>)
    ensures
        actions_view(r@) == noop(),
{
    one(RunAction::Noop)
}

/// Actions for a completed model response.
fn completed(message: &Message, usage: TokenUsage) -> (r: (RunState, Vec<RunAction>))
    ensures
        (r.0, actions_view(r.1@)) == on_completed(message@, usage),
{
    let calls = message.tool_calls();
    if calls.len() > 0 {
        let mut owned: Vec<ToolCall> = Vec::new();
        let mut i: usize = 0;
        while i < calls.len()
            invariant
                i <= calls.len(),
                owned.len() == i,
                forall|k: int| 0 <= k < i ==> (#[trigger] owned@[k])@ == calls@[k]@,
            decreases calls.len() - i,
        {
            owned.push(calls[i].clone());
            i = i + 1;
        }
        assert(calls_view(owned@) =~= calls_view(calls@));
        (RunState::ExecutingTools, one(RunAction::ExecuteTool { calls: owned }))
    } else {
        (RunState::Finished, one(RunAction::FinishRun { reason: FinishReason::Stop, usage }))
    }
}

/// The core transition function: returns the next state and the actions
/// the runtime should execute. Terminal states accept no input.
pub fn transition(state: &RunState, input: RunInput, config: &RunConfig) -> (r: (
    RunState,
    Vec<RunAction>,
))
    ensures
        (r.0, actions_view(r.1@)) == spec_transition(*state, input@),
{
    let _ = config;
    if matches!(state, RunState::Finished) || matches!(state, RunState::Aborted) {
        let v: Vec<RunAction> = Vec::new();
        assert(actions_view(v@) =~= Seq::empty());
        return (*state, v);
    }
    match (state, input) {
        (RunState::Idle, RunInput::UserMessageReceived { .. }) => (
            RunState::BuildingContext,
            noop_actions(),
        ),
        (RunState::Idle, RunInput::CancellationRequested) => {
            let error = String::from_str("cancelled before start");
            (RunState::Aborted, one(RunAction::AbortRun { error }))
        },
        (RunState::BuildingContext, RunInput::UserMessageReceived { .. }) => (
            RunState::CallingModel,
            noop_actions(),
        ),
        (RunState::CallingModel, RunInput::ModelChunkReceived { .. }) => (
            RunState::StreamingModel,
            noop_actions(),
        ),
        (RunState::CallingModel, RunInput::ModelCompleted { message, usage: _ }) => {
            let zero = TokenUsage::new(0, 0);
            completed(&message, zero)
        },
        (RunState::CallingModel, RunInput::RuntimeErrorReceived { error }) => (
            RunState::Aborted,
            one(RunAction::AbortRun { error }),
        ),
        (RunState::CallingModel, RunInput::CancellationRequested) => {
            let error = String::from_str("cancelled");
            (RunState::Aborted, one(RunAction::AbortRun { error }))
        },
        (RunState::StreamingModel, RunInput::ModelChunkReceived { .. }) => (
            RunState::StreamingModel,
            noop_actions(),
        ),
        (RunState::StreamingModel, RunInput::ModelCompleted { message, usage }) => completed(
            &message,
            usage,
        ),
        (RunState::StreamingModel, RunInput::RuntimeErrorReceived { error }) => (
            RunState::Aborted,
            one(RunAction::AbortRun { error }),
        ),
        (RunState::StreamingModel, RunInput::CancellationRequested) => {
            let error = String::from_str("cancelled");
            (RunState::Aborted, one(RunAction::AbortRun { error }))
        },
        (RunState::ProcessingResponse, RunInput::ToolCallRequested { calls }) => (
            RunState::ExecutingTools,
            one(RunAction::ExecuteTool { calls }),
        ),
        (RunState::ExecutingTools, RunInput::ToolResultReceived { .. }) => (
            RunState::ExecutingTools,
            noop_actions(),
        ),
        (RunState::ExecutingTools, RunInput::RuntimeErrorReceived { .. }) => (
            RunState::BuildingContext,
            noop_actions(),
        ),
        (RunState::WaitingApproval, RunInput::ToolApprovalGranted { call_id }) => {
            let call = ToolCall::new(call_id, String::new(), String::from_str("null"));
            let mut calls = Vec::new();
            calls.push(call);
            let ghost cv = calls_view(calls@);
            assert(cv =~= seq![call@]);
            (RunState::ExecutingTools, one(RunAction::ExecuteTool { calls }))
        },
        (RunState::WaitingApproval, RunInput::ToolApprovalRejected { .. }) => (
            RunState::BuildingContext,
            noop_actions(),
        ),
        (RunState::Compacting, RunInput::MemoryCompactionCompleted { .. }) => (
            RunState::BuildingContext,
            noop_actions(),
        ),
        _ => (*state, noop_actions()),
    }
}

/// Terminal states absorb every input: the state is kept and no action is
/// produced.
pub proof fn lemma_terminal_absorbing(s: RunState, i: RunInputView)
    requires
        is_terminal(s),
    ensures
        spec_transition(s, i) == (s, Seq::<RunActionView>::empty()),
{
}

/// Entering a terminal state from a non-terminal one always emits exactly
/// one action, and it is the matching terminal action: `FinishRun` for
/// `Finished`, `AbortRun` for `Aborted`.
pub proof fn lemma_terminal_entry_announced(s: RunState, i: RunInputView)
    requires
        !is_terminal(s),
        is_terminal(spec_transition(s, i).0),
    ensures
        spec_transition(s, i).1.len() == 1,
        spec_transition(s, i).0 == RunState::Finished ==> spec_transition(s, i).1[0] is FinishRun,
        spec_transition(s, i).0 == RunState::Aborted ==> spec_transition(s, i).1[0] is AbortRun,
{
}

/// Cancellation while idle or while waiting for the model aborts the run.
pub proof fn lemma_cancellation_aborts(s: RunState)
    requires
        s == RunState::Idle || s == RunState::CallingModel || s == RunState::StreamingModel,
    ensures
        spec_transition(s, RunInputView::CancellationRequested).0 == RunState::Aborted,
        spec_transition(s, RunInputView::CancellationRequested).1[0] is AbortRun,
{
}

/// Every non-terminal transition produces exactly one action.
pub proof fn lemma_single_action(s: RunState, i: RunInputView)
    requires
        !is_terminal(s),
    ensures
        spec_transition(s, i).1.len() == 1,
{
}

/// A runtime error while the model is being called or streamed aborts the
/// run, and the abort carries that error's text.
pub proof fn lemma_model_error_aborts(s: RunState, error: Seq<char>)
    requires
        s == RunState::CallingModel || s == RunState::StreamingModel,
    ensures
        spec_transition(s, RunInputView::RuntimeErrorReceived { error }) == (
            RunState::Aborted,
            seq![RunActionView::AbortRun { error }],
        ),
{
}

/// A runtime error while tools are executing does not end the run: it goes
/// back to building the context, with nothing else to do.
pub proof fn lemma_tool_error_rebuilds_context(error: Seq<char>)
    ensures
        spec_transition(RunState::ExecutingTools, RunInputView::RuntimeErrorReceived { error }) == (
            RunState::BuildingContext,
            seq![RunActionView::Noop],
        ),
{
}

/// What a cancellation says: before the run started, that it was cancelled
/// before start; while the model is called or streamed, that it was
/// cancelled.
pub proof fn lemma_cancellation_reasons(s: RunState)
    requires
        s == RunState::CallingModel || s == RunState::StreamingModel,
    ensures
        spec_transition(RunState::Idle, RunInputView::CancellationRequested) == (
            RunState::Aborted,
            seq![RunActionView::AbortRun { error: "cancelled before start"@ }],
        ),
        spec_transition(s, RunInputView::CancellationRequested) == (
            RunState::Aborted,
            seq![RunActionView::AbortRun { error: "cancelled"@ }],
        ),
{
}

/// A completed model response either runs the tool calls it requested, all
/// of them and in order, or, when it requested none, finishes the run with
/// reason `Stop`. A streamed run finishes with the usage the response
/// reported; a non-streamed one with zero usage.
pub proof fn lemma_model_completion(s: RunState, message: MessageView, usage: TokenUsage)
    requires
        s == RunState::CallingModel || s == RunState::StreamingModel,
    ensures
        msg_tool_calls(message).len() > 0 ==> spec_transition(
            s,
            RunInputView::ModelCompleted { message, usage },
        ) == (
            RunState::ExecutingTools,
            seq![RunActionView::ExecuteTool { calls: msg_tool_calls(message) }],
        ),
        msg_tool_calls(message).len() == 0 ==> spec_transition(
            s,
            RunInputView::ModelCompleted { message, usage },
        ).0 == RunState::Finished,
        msg_tool_calls(message).len() == 0 ==> spec_transition(
            s,
            RunInputView::ModelCompleted { message, usage },
        ).1 == seq![
            RunActionView::FinishRun {
                reason: FinishReasonView::Stop,
                usage: if s == RunState::StreamingModel {
                    usage
                } else {
                    TokenUsage {
                        input_tokens: 0,
                        output_tokens: 0,
                        total_tokens: 0,
                        cache_creation_input_tokens: None,
                        cache_read_input_tokens: None,
                        cached_input_tokens: None,
                    }
                },
            },
        ],
{
}

/// The way into a model call: a user message moves an idle run to building
/// its context, and a built context to calling the model; the first chunk
/// starts streaming and later chunks keep it; none of these does anything
/// else.
pub proof fn lemma_run_start(content: Seq<ContentPartView>, delta: Seq<char>)
    ensures
        spec_transition(RunState::Idle, RunInputView::UserMessageReceived { content }) == (
            RunState::BuildingContext,
            seq![RunActionView::Noop],
        ),
        spec_transition(RunState::BuildingContext, RunInputView::UserMessageReceived { content })
            == (RunState::CallingModel, seq![RunActionView::Noop]),
        spec_transition(RunState::CallingModel, RunInputView::ModelChunkReceived { delta }) == (
            RunState::StreamingModel,
            seq![RunActionView::Noop],
        ),
        spec_transition(RunState::StreamingModel, RunInputView::ModelChunkReceived { delta }) == (
            RunState::StreamingModel,
            seq![RunActionView::Noop],
        ),
{
}

/// Tools and approvals: requested calls are executed, all of them; tool
/// results keep the run executing; an approved call is executed by its
/// identifier; a rejection or a finished compaction goes back to building
/// the context.
pub proof fn lemma_tools_and_approvals(
    calls: Seq<ToolCallView>,
    call_id: Seq<char>,
    output: Seq<char>,
    reason: Option<Seq<char>>,
    summary: Seq<char>,
)
    ensures
        spec_transition(RunState::ProcessingResponse, RunInputView::ToolCallRequested { calls }) == (
            RunState::ExecutingTools,
            seq![RunActionView::ExecuteTool { calls }],
        ),
        spec_transition(RunState::ExecutingTools, RunInputView::ToolResultReceived { call_id, output })
            == (RunState::ExecutingTools, seq![RunActionView::Noop]),
        spec_transition(RunState::WaitingApproval, RunInputView::ToolApprovalGranted { call_id }) == (
            RunState::ExecutingTools,
            seq![
                RunActionView::ExecuteTool {
                    calls: seq![ToolCallView { id: call_id, name: Seq::empty(), arguments: "null"@ }],
                },
            ],
        ),
        spec_transition(
            RunState::WaitingApproval,
            RunInputView::ToolApprovalRejected { call_id, reason },
        ) == (RunState::BuildingContext, seq![RunActionView::Noop]),
        spec_transition(RunState::Compacting, RunInputView::MemoryCompactionCompleted { summary })
            == (RunState::BuildingContext, seq![RunActionView::Noop]),
{
}

/// A transition that leaves a live run in the same state does nothing: its
/// only action is `Noop`.
pub proof fn lemma_same_state_is_noop(s: RunState, i: RunInputView)
    requires
        !is_terminal(s),
        spec_transition(s, i).0 == s,
    ensures
        spec_transition(s, i).1 == seq![RunActionView::Noop],
{
}

} // verus!
