//! The events an agent run emits, from its start to its end.
//!
//! Run, session and message identifiers are the 128-bit values of their
//! UUIDs; timestamps are milliseconds since the Unix epoch; JSON values
//! are carried as JSON text.
use vstd::prelude::*;

use crate::event::AgentEventKind;
use crate::message::{FinishReason, TokenUsage};
use crate::tool_types::ToolCall;

verus! {

/// A run began, after session load and input admission.
#[derive(Debug)]
pub struct RunStarted {
    pub run_id: u128,
    pub session_id: u128,
    pub provider: String,
    pub model: String,
    pub timestamp_ms: i64,
}

/// Context was assembled from session history and adapters.
#[derive(Debug)]
pub struct ContextBuilt {
    pub run_id: u128,
    pub message_count: usize,
    pub timestamp_ms: i64,
}

/// A model invocation began.
#[derive(Debug)]
pub struct ModelStarted {
    pub run_id: u128,
    pub provider: String,
    pub model: String,
    pub iteration: usize,
    pub timestamp_ms: i64,
}

/// A fragment of model text.
#[derive(Debug)]
pub struct TextDelta {
    pub run_id: u128,
    pub delta: String,
    pub timestamp_ms: i64,
}

/// The model started a tool call.
#[derive(Debug)]
pub struct ToolCallStarted {
    pub run_id: u128,
    pub call_id: String,
    pub tool_name: String,
    pub timestamp_ms: i64,
}

/// A fragment of a tool call's arguments.
#[derive(Debug)]
pub struct ToolCallDelta {
    pub run_id: u128,
    pub call_id: String,
    pub delta: String,
    pub timestamp_ms: i64,
}

/// The model completed a tool call.
#[derive(Debug)]
pub struct ToolCallCompleted {
    pub run_id: u128,
    pub call: ToolCall,
    pub timestamp_ms: i64,
}

/// A tool began executing.
#[derive(Debug)]
pub struct ToolExecutionStarted {
    pub run_id: u128,
    pub call_id: String,
    pub tool_name: String,
    pub timestamp_ms: i64,
}

/// The outcome of a tool execution.
#[derive(Debug)]
pub enum ToolExecutionResult {
    /// The tool returned an output (JSON text).
    Success { output: String },
    /// The tool failed.
    Failure { error: String },
}

/// A tool finished executing.
#[derive(Debug)]
pub struct ToolExecutionFinished {
    pub run_id: u128,
    pub call_id: String,
    pub tool_name: String,
    pub result: ToolExecutionResult,
    pub duration_ms: u64,
    pub timestamp_ms: i64,
}

/// A message was committed to the store.
#[derive(Debug)]
pub struct MessageCommitted {
    pub run_id: u128,
    pub message_id: u128,
    pub timestamp_ms: i64,
}

/// Token usage of a model call was recorded.
#[derive(Debug)]
pub struct UsageRecorded {
    pub run_id: u128,
    pub usage: TokenUsage,
    pub timestamp_ms: i64,
}

/// Prompt-cache counters of one model call.
#[derive(Debug)]
pub struct CacheMetrics {
    pub run_id: u128,
    pub cache_creation_input_tokens: u64,
    pub cache_read_input_tokens: u64,
    pub cached_input_tokens: u64,
    pub timestamp_ms: i64,
}

impl CacheMetrics {
    /// The sum of the three cache counters.
    pub fn total_cache_tokens(&self) -> (r: u64)
        requires
            self.cache_creation_input_tokens + self.cache_read_input_tokens
                + self.cached_input_tokens <= u64::MAX,
        ensures
            r == self.cache_creation_input_tokens + self.cache_read_input_tokens
                + self.cached_input_tokens,
    {
        self.cache_creation_input_tokens + self.cache_read_input_tokens + self.cached_input_tokens
    }
}

/// A run completed successfully.
#[derive(Debug)]
pub struct RunCompleted {
    pub run_id: u128,
    pub finish_reason: FinishReason,
    pub iterations: usize,
    pub timestamp_ms: i64,
}

/// A run failed.
#[derive(Debug)]
pub struct RunFailed {
    pub run_id: u128,
    pub error: String,
    pub timestamp_ms: i64,
}

/// A run was cancelled.
#[derive(Debug)]
pub struct RunCancelled {
    pub run_id: u128,
    pub timestamp_ms: i64,
}

/// A doom loop was detected.
#[derive(Debug)]
pub struct DoomLoopDetected {
    pub run_id: u128,
    pub description: String,
    pub timestamp_ms: i64,
}

/// The compaction circuit breaker opened after repeated failures.
#[derive(Debug)]
pub struct CompactionCircuitOpened {
    pub run_id: u128,
    pub consecutive_failures: u32,
    pub timestamp_ms: i64,
}

/// An event emitted during agent runtime execution.
#[derive(Debug)]
pub enum AgentEvent {
    RunStarted(RunStarted),
    ContextBuilt(ContextBuilt),
    ModelStarted(ModelStarted),
    TextDelta(TextDelta),
    ToolCallStarted(ToolCallStarted),
    ToolCallDelta(ToolCallDelta),
    ToolCallCompleted(ToolCallCompleted),
    ToolExecutionStarted(ToolExecutionStarted),
    ToolExecutionFinished(ToolExecutionFinished),
    AssistantMessageCommitted(MessageCommitted),
    ToolMessageCommitted(MessageCommitted),
    UsageRecorded(UsageRecorded),
    CacheMetrics(CacheMetrics),
    RunCompleted(RunCompleted),
    RunFailed(RunFailed),
    RunCancelled(RunCancelled),
    DoomLoopDetected(DoomLoopDetected),
    CompactionCircuitOpened(CompactionCircuitOpened),
}

/// The run an event belongs to.
pub open spec fn event_run_id(e: AgentEvent) -> u128 {
    match e {
        AgentEvent::RunStarted(x) => x.run_id,
        AgentEvent::ContextBuilt(x) => x.run_id,
        AgentEvent::ModelStarted(x) => x.run_id,
        AgentEvent::TextDelta(x) => x.run_id,
        AgentEvent::ToolCallStarted(x) => x.run_id,
        AgentEvent::ToolCallDelta(x) => x.run_id,
        AgentEvent::ToolCallCompleted(x) => x.run_id,
        AgentEvent::ToolExecutionStarted(x) => x.run_id,
        AgentEvent::ToolExecutionFinished(x) => x.run_id,
        AgentEvent::AssistantMessageCommitted(x) => x.run_id,
        AgentEvent::ToolMessageCommitted(x) => x.run_id,
        AgentEvent::UsageRecorded(x) => x.run_id,
        AgentEvent::CacheMetrics(x) => x.run_id,
        AgentEvent::RunCompleted(x) => x.run_id,
        AgentEvent::RunFailed(x) => x.run_id,
        AgentEvent::RunCancelled(x) => x.run_id,
        AgentEvent::DoomLoopDetected(x) => x.run_id,
        AgentEvent::CompactionCircuitOpened(x) => x.run_id,
    }
}

/// The kind (variant) of an event.
pub open spec fn event_kind(e: AgentEvent) -> AgentEventKind {
    match e {
        AgentEvent::RunStarted(_) => AgentEventKind::RunStarted,
        AgentEvent::ContextBuilt(_) => AgentEventKind::ContextBuilt,
        AgentEvent::ModelStarted(_) => AgentEventKind::ModelStarted,
        AgentEvent::TextDelta(_) => AgentEventKind::TextDelta,
        AgentEvent::ToolCallStarted(_) => AgentEventKind::ToolCallStarted,
        AgentEvent::ToolCallDelta(_) => AgentEventKind::ToolCallDelta,
        AgentEvent::ToolCallCompleted(_) => AgentEventKind::ToolCallCompleted,
        AgentEvent::ToolExecutionStarted(_) => AgentEventKind::ToolExecutionStarted,
        AgentEvent::ToolExecutionFinished(_) => AgentEventKind::ToolExecutionFinished,
        AgentEvent::AssistantMessageCommitted(_) => AgentEventKind::AssistantMessageCommitted,
        AgentEvent::ToolMessageCommitted(_) => AgentEventKind::ToolMessageCommitted,
        AgentEvent::UsageRecorded(_) => AgentEventKind::UsageRecorded,
        AgentEvent::CacheMetrics(_) => AgentEventKind::CacheMetrics,
        AgentEvent::RunCompleted(_) => AgentEventKind::RunCompleted,
        AgentEvent::RunFailed(_) => AgentEventKind::RunFailed,
        AgentEvent::RunCancelled(_) => AgentEventKind::RunCancelled,
        AgentEvent::DoomLoopDetected(_) => AgentEventKind::DoomLoopDetected,
        AgentEvent::CompactionCircuitOpened(_) => AgentEventKind::CompactionCircuitOpened,
    }
}

impl AgentEvent {
    /// The run this event belongs to.
    pub fn run_id(&self) -> (r: u128)
        ensures
            r == event_run_id(*self),
    {
        match self {
            AgentEvent::RunStarted(x) => x.run_id,
            AgentEvent::ContextBuilt(x) => x.run_id,
            AgentEvent::ModelStarted(x) => x.run_id,
            AgentEvent::TextDelta(x) => x.run_id,
            AgentEvent::ToolCallStarted(x) => x.run_id,
            AgentEvent::ToolCallDelta(x) => x.run_id,
            AgentEvent::ToolCallCompleted(x) => x.run_id,
            AgentEvent::ToolExecutionStarted(x) => x.run_id,
            AgentEvent::ToolExecutionFinished(x) => x.run_id,
            AgentEvent::AssistantMessageCommitted(x) => x.run_id,
            AgentEvent::ToolMessageCommitted(x) => x.run_id,
            AgentEvent::UsageRecorded(x) => x.run_id,
            AgentEvent::CacheMetrics(x) => x.run_id,
            AgentEvent::RunCompleted(x) => x.run_id,
            AgentEvent::RunFailed(x) => x.run_id,
            AgentEvent::RunCancelled(x) => x.run_id,
            AgentEvent::DoomLoopDetected(x) => x.run_id,
            AgentEvent::CompactionCircuitOpened(x) => x.run_id,
        }
    }

    /// The kind (variant) of this event.
    pub fn kind(&self) -> (r: AgentEventKind)
        ensures
            r == event_kind(*self),
    {
        match self {
            AgentEvent::RunStarted(_) => AgentEventKind::RunStarted,
            AgentEvent::ContextBuilt(_) => AgentEventKind::ContextBuilt,
            AgentEvent::ModelStarted(_) => AgentEventKind::ModelStarted,
            AgentEvent::TextDelta(_) => AgentEventKind::TextDelta,
            AgentEvent::ToolCallStarted(_) => AgentEventKind::ToolCallStarted,
            AgentEvent::ToolCallDelta(_) => AgentEventKind::ToolCallDelta,
            AgentEvent::ToolCallCompleted(_) => AgentEventKind::ToolCallCompleted,
            AgentEvent::ToolExecutionStarted(_) => AgentEventKind::ToolExecutionStarted,
            AgentEvent::ToolExecutionFinished(_) => AgentEventKind::ToolExecutionFinished,
            AgentEvent::AssistantMessageCommitted(_) => AgentEventKind::AssistantMessageCommitted,
            AgentEvent::ToolMessageCommitted(_) => AgentEventKind::ToolMessageCommitted,
            AgentEvent::UsageRecorded(_) => AgentEventKind::UsageRecorded,
            AgentEvent::CacheMetrics(_) => AgentEventKind::CacheMetrics,
            AgentEvent::RunCompleted(_) => AgentEventKind::RunCompleted,
            AgentEvent::RunFailed(_) => AgentEventKind::RunFailed,
            AgentEvent::RunCancelled(_) => AgentEventKind::RunCancelled,
            AgentEvent::DoomLoopDetected(_) => AgentEventKind::DoomLoopDetected,
            AgentEvent::CompactionCircuitOpened(_) => AgentEventKind::CompactionCircuitOpened,
        }
    }

    /// Whether this event ends its run: completed, failed or cancelled.
    pub fn is_terminal(&self) -> (r: bool)
        ensures
            r == (event_kind(*self) is RunCompleted || event_kind(*self) is RunFailed
                || event_kind(*self) is RunCancelled),
    {
        match self {
            AgentEvent::RunCompleted(_) | AgentEvent::RunFailed(_) | AgentEvent::RunCancelled(_) =>
                true,
            _ => false,
        }
    }
}

} // verus!
