//! Event-sourcing journal for conversation state.
//!
//! An append-only log of [`SessionEvent`]s with strictly increasing
//! offsets. [`Journal::build_prompt`] projects the log (and optional
//! checkpoints) to the prompt state sent to a model.

use vstd::prelude::*;

use crate::message::{
    Message, MessageView, clone_messages, clone_opt_string, msg_tool_calls, msgs_view, opt_view,
    text_part,
};
use crate::tool_types::{ToolCall, ToolCallView, calls_view, clone_calls};

verus! {

/// Abstract value of a tool result.
pub struct ToolResultView {
    /// Answered call.
    pub call_id: Seq<char>,
    /// Tool name.
    pub tool_name: Seq<char>,
    /// Output text or error text.
    pub output: Seq<char>,
    /// Whether the result is an error.
    pub is_error: bool,
    /// Optional structured output (serialized JSON).
    pub value: Option<Seq<char>>,
}

/// The result of executing a tool call.
#[derive(Debug)]
pub struct ToolResult {
    /// Matches the tool call's `id`.
    pub call_id: String,
    /// The tool that was called.
    pub tool_name: String,
    /// The tool output, or the error text.
    pub output: String,
    /// Whether this result is an error.
    pub is_error: bool,
    /// Optional structured output, as serialized JSON text.
    pub value: Option<String>,
}

impl View for ToolResult {
    type V = ToolResultView;

    open spec fn view(&self) -> ToolResultView {
        ToolResultView {
            call_id: self.call_id@,
            tool_name: self.tool_name@,
            output: self.output@,
            is_error: self.is_error,
            value: opt_view(self.value),
        }
    }
}

impl ToolResult {
    /// A successful result.
    pub fn success(call_id: String, tool_name: String, output: String) -> (r: Self)
        ensures
            r@ == (ToolResultView {
                call_id: call_id@,
                tool_name: tool_name@,
                output: output@,
                is_error: false,
                value: None,
            }),
    {
        ToolResult { call_id, tool_name, output, is_error: false, value: None }
    }

    /// A result representing an error.
    pub fn error(call_id: String, tool_name: String, error: String) -> (r: Self)
        ensures
            r@ == (ToolResultView {
                call_id: call_id@,
                tool_name: tool_name@,
                output: error@,
                is_error: true,
                value: None,
            }),
    {
        ToolResult { call_id, tool_name, output: error, is_error: true, value: None }
    }

    /// The same result with structured output attached.
    pub fn with_value(self, value: String) -> (r: Self)
        ensures
            r@ == (ToolResultView { value: Some(value@), ..self@ }),
    {
        ToolResult { value: Some(value), ..self }
    }
}

impl Clone for ToolResult {
    fn clone(&self) -> (r: Self)
        ensures
            r@ == self@,
    {
        ToolResult {
            call_id: self.call_id.clone(),
            tool_name: self.tool_name.clone(),
            output: self.output.clone(),
            is_error: self.is_error,
            value: clone_opt_string(&self.value),
        }
    }
}

/// Abstract value of a checkpoint.
pub struct CheckpointView {
    /// Entries before this offset are compacted.
    pub compacted_until_offset: u64,
    /// Optional summary.
    pub summary: Option<Seq<char>>,
    /// Preserved messages.
    pub preserved_messages: Seq<MessageView>,
}

/// A checkpoint summarizing compacted journal entries.
#[derive(Debug)]
pub struct SessionCheckpoint {
    /// Journal entries before this offset have been compacted.
    pub compacted_until_offset: u64,
    /// Optional summary of the compacted part.
    pub summary: Option<String>,
    /// Messages preserved from the compacted part.
    pub preserved_messages: Vec<Message>,
}

impl View for SessionCheckpoint {
    type V = CheckpointView;

    open spec fn view(&self) -> CheckpointView {
        CheckpointView {
            compacted_until_offset: self.compacted_until_offset,
            summary: opt_view(self.summary),
            preserved_messages: msgs_view(self.preserved_messages@),
        }
    }
}

impl Clone for SessionCheckpoint {
    fn clone(&self) -> (r: Self)
        ensures
            r@ == self@,
    {
        SessionCheckpoint {
            compacted_until_offset: self.compacted_until_offset,
            summary: clone_opt_string(&self.summary),
            preserved_messages: clone_messages(&self.preserved_messages),
        }
    }
}

/// The views of a list of checkpoints.
pub open spec fn checkpoints_view(s: Seq<SessionCheckpoint>) -> Seq<CheckpointView> {
    s.map_values(|c: SessionCheckpoint| c@)
}

/// What a compaction operation did.
#[derive(Debug, Clone, Copy, PartialEq, Eq, Structural)]
pub enum CompactionBoundary {
    /// Old tool outputs were cleared.
    Microcompact {
        /// Token savings.
        tokens_freed: usize,
    },
    /// The oldest message groups were dropped.
    Autocompact {
        /// Dropped groups.
        groups_dropped: usize,
        /// Token savings.
        tokens_freed: usize,
    },
    /// A model-written summary replaced old messages.
    FullCompact {
        /// Summary length in characters.
        summary_chars: usize,
        /// Token savings.
        tokens_freed: usize,
    },
}

/// Abstract value of a session event.
pub enum SessionEventView {
    /// User input.
    InputReceived { input: Seq<char> },
    /// A message was appended.
    MessageAppended { message: MessageView },
    /// A tool call was started.
    ToolCallStarted { call: ToolCallView },
    /// A tool call finished.
    ToolCallFinished { result: ToolResultView },
    /// A checkpoint was created.
    CheckpointCreated { checkpoint: CheckpointView },
    /// A compaction boundary was recorded.
    CompactionBoundary { boundary: CompactionBoundary },
}

/// Events that change the state of a conversation.
#[derive(Debug)]
pub enum SessionEvent {
    /// User input was received.
    InputReceived {
        /// Raw input text.
        input: String,
    },
    /// A message was appended.
    MessageAppended {
        /// The appended message.
        message: Message,
    },
    /// The model requested a tool call.
    ToolCallStarted {
        /// The started call.
        call: ToolCall,
    },
    /// A tool call finished executing.
    ToolCallFinished {
        /// The result.
        result: ToolResult,
    },
    /// A checkpoint was created.
    CheckpointCreated {
        /// The checkpoint.
        checkpoint: SessionCheckpoint,
    },
    /// A compaction boundary was recorded.
    CompactionBoundary {
        /// What was compacted.
        boundary: CompactionBoundary,
    },
}

impl View for SessionEvent {
    type V = SessionEventView;

    open spec fn view(&self) -> SessionEventView {
        match self {
            SessionEvent::InputReceived { input } => SessionEventView::InputReceived {
                input: input@,
            },
            SessionEvent::MessageAppended { message } => SessionEventView::MessageAppended {
                message: message@,
            },
            SessionEvent::ToolCallStarted { call } => SessionEventView::ToolCallStarted {
                call: call@,
            },
            SessionEvent::ToolCallFinished { result } => SessionEventView::ToolCallFinished {
                result: result@,
            },
            SessionEvent::CheckpointCreated { checkpoint } => SessionEventView::CheckpointCreated {
                checkpoint: checkpoint@,
            },
            SessionEvent::CompactionBoundary { boundary } => SessionEventView::CompactionBoundary {
                boundary: *boundary,
            },
        }
    }
}

impl Clone for SessionEvent {
    fn clone(&self) -> (r: Self)
        ensures
            r@ == self@,
    {
        match self {
            SessionEvent::InputReceived { input } => SessionEvent::InputReceived {
                input: input.clone(),
            },
            SessionEvent::MessageAppended { message } => SessionEvent::MessageAppended {
                message: message.clone(),
            },
            SessionEvent::ToolCallStarted { call } => SessionEvent::ToolCallStarted {
                call: call.clone(),
            },
            SessionEvent::ToolCallFinished { result } => SessionEvent::ToolCallFinished {
                result: result.clone(),
            },
            SessionEvent::CheckpointCreated { checkpoint } => SessionEvent::CheckpointCreated {
                checkpoint: checkpoint.clone(),
            },
            SessionEvent::CompactionBoundary { boundary } => SessionEvent::CompactionBoundary {
                boundary: *boundary,
            },
        }
    }
}

/// Abstract value of a log entry.
pub struct LogEntryView {
    /// Offset.
    pub offset: u64,
    /// Milliseconds since the Unix epoch.
    pub timestamp_ms: u64,
    /// The event.
    pub event: SessionEventView,
}

/// A journal entry: an event with its offset and timestamp.
#[derive(Debug)]
pub struct LogEntry {
    /// Offset, assigned at record time.
    pub offset: u64,
    /// Milliseconds since the Unix epoch at record time.
    pub timestamp_ms: u64,
    /// The event.
    pub event: SessionEvent,
}

impl View for LogEntry {
    type V = LogEntryView;

    open spec fn view(&self) -> LogEntryView {
        LogEntryView { offset: self.offset, timestamp_ms: self.timestamp_ms, event: self.event@ }
    }
}

impl Clone for LogEntry {
    fn clone(&self) -> (r: Self)
        ensures
            r@ == self@,
    {
        LogEntry { offset: self.offset, timestamp_ms: self.timestamp_ms, event: self.event.clone() }
    }
}

/// The views of a list of entries.
pub open spec fn entries_view(s: Seq<LogEntry>) -> Seq<LogEntryView> {
    s.map_values(|e: LogEntry| e@)
}

/// Offsets strictly increase along the list.
pub open spec fn offsets_increasing(s: Seq<LogEntryView>) -> bool {
    forall|i: int, j: int| 0 <= i < j < s.len() ==> s[i].offset < s[j].offset
}

/// The offset the journal assigns next: one past the last entry.
pub open spec fn next_after(s: Seq<LogEntryView>) -> u64 {
    if s.len() == 0 {
        0
    } else {
        (s.last().offset + 1) as u64
    }
}

/// Reads the wall clock: milliseconds since the Unix epoch, or `None`
/// when the clock is before the epoch (std `SystemTime::duration_since`).
/// The value depends on the clock; nothing is stated of it.
#[verifier::external_body]
fn unix_epoch_millis() -> Option<u128> {
    match std::time::SystemTime::now().duration_since(std::time::UNIX_EPOCH) {
        Ok(d) => Some(d.as_millis()),
        Err(_) => None,
    }
}

/// A wall-clock reading as a timestamp: the milliseconds since the Unix
/// epoch saturated at `u64::MAX`, and zero for a reading before the epoch.
pub fn timestamp_from_epoch_millis(ms: Option<u128>) -> (r: u64)
    ensures
        r == match ms {
            Some(m) => if m <= u64::MAX { m as u64 } else { u64::MAX },
            None => 0,
        },
{
    match ms {
        Some(m) => {
            if m <= u64::MAX as u128 {
                m as u64
            } else {
                u64::MAX
            }
        },
        None => 0,
    }
}

/// Milliseconds since the Unix epoch, zero before the epoch and
/// saturated at `u64::MAX`. The value is the wall clock's; what is made of
/// the reading is [`timestamp_from_epoch_millis`].
pub fn current_timestamp_ms() -> (r: u64) {
    timestamp_from_epoch_millis(unix_epoch_millis())
}

/// An append-only event log for a conversation.
pub struct Journal {
    entries: Vec<LogEntry>,
    next_offset: u64,
}

impl View for Journal {
    type V = Seq<LogEntryView>;

    closed spec fn view(&self) -> Seq<LogEntryView> {
        entries_view(self.entries@)
    }
}

impl Journal {
    /// Well-formedness: offsets strictly increase and the next offset is
    /// one past the last entry (zero when empty).
    pub closed spec fn wf(&self) -> bool {
        &&& offsets_increasing(self@)
        &&& self.next_offset == next_after(self@)
        &&& forall|i: int| 0 <= i < self@.len() ==> #[trigger] self@[i].offset < u64::MAX
    }

    /// The offset the next recorded event receives.
    pub closed spec fn spec_next_offset(&self) -> u64 {
        self.next_offset
    }

    /// An empty journal.
    pub fn new() -> (r: Self)
        ensures
            r.wf(),
            r@ == Seq::<LogEntryView>::empty(),
            r.spec_next_offset() == 0,
    {
        let j = Journal { entries: Vec::new(), next_offset: 0 };
        assert(j@ =~= Seq::<LogEntryView>::empty());
        j
    }

    /// Restores a journal from exported entries, which must be in offset
    /// order. The next offset is one past the last entry (zero if empty).
    pub fn from_entries(entries: Vec<LogEntry>) -> (r: Self)
        requires
            offsets_increasing(entries_view(entries@)),
            forall|i: int|
                0 <= i < entries@.len() ==> #[trigger] entries@[i].offset < u64::MAX,
        ensures
            r.wf(),
            r@ == entries_view(entries@),
            r.spec_next_offset() == next_after(entries_view(entries@)),
    {
        let n = entries.len();
        let next_offset = if n == 0 {
            0
        } else {
            entries[n - 1].offset + 1
        };
        Journal { entries, next_offset }
    }

    /// Records an event and returns the offset it was assigned: the
    /// previous next offset, which then advances by one.
    pub fn record(&mut self, event: SessionEvent) -> (r: u64)
        requires
            old(self).wf(),
            old(self).spec_next_offset() < u64::MAX,
        ensures
            final(self).wf(),
            r == old(self).spec_next_offset(),
            final(self).spec_next_offset() == r + 1,
            final(self)@.len() == old(self)@.len() + 1,
            final(self)@.take(old(self)@.len() as int) == old(self)@,
            final(self)@.last().offset == r,
            final(self)@.last().event == event@,
    {
        let offset = self.next_offset;
        self.next_offset = self.next_offset + 1;
        let timestamp_ms = current_timestamp_ms();
        self.entries.push(LogEntry { offset, timestamp_ms, event });
        proof {
            assert(self@.take(old(self)@.len() as int) =~= old(self)@);
            assert(forall|i: int| 0 <= i < old(self)@.len() ==> self@[i] == old(self)@[i]);
        }
        offset
    }

    /// The offset the next recorded event receives.
    pub fn next_offset(&self) -> (r: u64)
        ensures
            r == self.spec_next_offset(),
    {
        self.next_offset
    }

    /// The number of entries.
    pub fn len(&self) -> (r: usize)
        ensures
            r == self@.len(),
    {
        self.entries.len()
    }

    /// `true` when the journal holds no entry.
    pub fn is_empty(&self) -> (r: bool)
        ensures
            r == (self@.len() == 0),
    {
        self.entries.len() == 0
    }

    /// All entries, in order.
    pub fn entries(&self) -> (r: &[LogEntry])
        ensures
            entries_view(r@) == self@,
    {
        self.entries.as_slice()
    }

    /// The index of the first entry whose offset is at least `offset`
    /// (the entry count when there is none).
    fn first_at_or_after(&self, offset: u64) -> (k: usize)
        requires
            self.wf(),
        ensures
            k <= self@.len(),
            forall|i: int| 0 <= i < k ==> #[trigger] self@[i].offset < offset,
            forall|i: int| k <= i < self@.len() ==> #[trigger] self@[i].offset >= offset,
    {
        let mut lo: usize = 0;
        let mut hi: usize = self.entries.len();
        while lo < hi
            invariant
                self.wf(),
                lo <= hi <= self@.len(),
                forall|i: int| 0 <= i < lo ==> #[trigger] self@[i].offset < offset,
                forall|i: int| hi <= i < self@.len() ==> #[trigger] self@[i].offset >= offset,
            decreases hi - lo,
        {
            let mid = lo + (hi - lo) / 2;
            if self.entries[mid].offset < offset {
                proof {
                    assert forall|i: int| 0 <= i < mid + 1 implies #[trigger] self@[i].offset
                        < offset by {
                        if i < mid {
                            assert(self@[i].offset < self@[mid as int].offset);
                        }
                    }
                }
                lo = mid + 1;
            } else {
                proof {
                    assert forall|i: int| mid <= i < self@.len() implies #[trigger] self@[i].offset
                        >= offset by {
                        if i > mid {
                            assert(self@[mid as int].offset < self@[i].offset);
                        }
                    }
                }
                hi = mid;
            }
        }
        lo
    }

    /// All entries recorded at or after `offset`: a suffix of the journal
    /// holding exactly the entries whose offset is at least `offset`.
    pub fn entries_since(&self, offset: u64) -> (r: &[LogEntry])
        requires
            self.wf(),
        ensures
            exists|k: int|
                0 <= k <= self@.len() && entries_view(r@) == self@.skip(k) && (forall|i: int|
                    0 <= i < k ==> #[trigger] self@[i].offset < offset),
            forall|i: int| 0 <= i < r@.len() ==> #[trigger] r@[i].offset >= offset,
    {
        let k = self.first_at_or_after(offset);
        let all = self.entries.as_slice();
        let r = vstd::slice::slice_subrange(all, k, all.len());
        proof {
            assert(entries_view(r@) =~= self@.skip(k as int));
            assert forall|i: int| 0 <= i < r@.len() implies #[trigger] r@[i].offset >= offset by {
                assert(r@[i] == self.entries@[k + i]);
                assert(self@[k + i].offset >= offset);
            }
        }
        r
    }
}


/// Whether a call with the given identifier is in the list.
pub open spec fn has_id(open: Seq<ToolCallView>, id: Seq<char>) -> bool {
    exists|k: int| 0 <= k < open.len() && open[k].id == id
}

/// Adds a call unless one with the same identifier is already open.
pub open spec fn add_call(open: Seq<ToolCallView>, c: ToolCallView) -> Seq<ToolCallView> {
    if has_id(open, c.id) {
        open
    } else {
        open.push(c)
    }
}

/// Adds each call of a list, in order.
pub open spec fn add_calls(open: Seq<ToolCallView>, cs: Seq<ToolCallView>) -> Seq<ToolCallView>
    decreases cs.len(),
{
    if cs.len() == 0 {
        open
    } else {
        add_call(add_calls(open, cs.drop_last()), cs.last())
    }
}

/// Removes every call with the given identifier.
pub open spec fn remove_id(open: Seq<ToolCallView>, id: Seq<char>) -> Seq<ToolCallView>
    decreases open.len(),
{
    if open.len() == 0 {
        open
    } else {
        let r = remove_id(open.drop_last(), id);
        if open.last().id == id {
            r
        } else {
            r.push(open.last())
        }
    }
}

/// Open calls after one message: its tool calls open, a tool result
/// closes the call it answers.
pub open spec fn reopen_step(open: Seq<ToolCallView>, m: MessageView) -> Seq<ToolCallView> {
    let o = add_calls(open, msg_tool_calls(m));
    match m {
        MessageView::Tool { tool_call_id, .. } => remove_id(o, tool_call_id),
        _ => o,
    }
}

/// Tool calls left open by a list of messages.
pub open spec fn reopen(msgs: Seq<MessageView>) -> Seq<ToolCallView>
    decreases msgs.len(),
{
    if msgs.len() == 0 {
        Seq::empty()
    } else {
        reopen_step(reopen(msgs.drop_last()), msgs.last())
    }
}

/// Abstract value of a prompt projection.
pub struct ProjectionView {
    /// Summary of compacted events.
    pub summary: Option<Seq<char>>,
    /// Prompt messages.
    pub messages: Seq<MessageView>,
    /// Calls started but not finished.
    pub open_tool_calls: Seq<ToolCallView>,
}

/// Replay state: the offset below which entries are skipped, and the
/// projection built so far.
pub struct ReplayState {
    /// Entries below this offset are skipped.
    pub compacted_until: u64,
    /// The projection.
    pub proj: ProjectionView,
}

/// Replay state right after applying a checkpoint.
pub open spec fn state_from_checkpoint(cp: CheckpointView) -> ReplayState {
    ReplayState {
        compacted_until: cp.compacted_until_offset,
        proj: ProjectionView {
            summary: cp.summary,
            messages: cp.preserved_messages,
            open_tool_calls: reopen(cp.preserved_messages),
        },
    }
}

/// Initial replay state: the latest given checkpoint, or nothing.
pub open spec fn initial_state(cps: Seq<CheckpointView>) -> ReplayState {
    if cps.len() == 0 {
        ReplayState {
            compacted_until: 0,
            proj: ProjectionView {
                summary: None,
                messages: Seq::empty(),
                open_tool_calls: Seq::empty(),
            },
        }
    } else {
        state_from_checkpoint(cps.last())
    }
}

/// Applies one journal entry to the replay state. Entries below the
/// current compaction offset are skipped.
pub open spec fn apply_entry(st: ReplayState, e: LogEntryView) -> ReplayState {
    if e.offset < st.compacted_until {
        st
    } else {
        match e.event {
            SessionEventView::MessageAppended { message } => ReplayState {
                proj: ProjectionView {
                    messages: st.proj.messages.push(message),
                    open_tool_calls: add_calls(st.proj.open_tool_calls, msg_tool_calls(message)),
                    ..st.proj
                },
                ..st
            },
            SessionEventView::ToolCallStarted { call } => ReplayState {
                proj: ProjectionView {
                    open_tool_calls: add_call(st.proj.open_tool_calls, call),
                    ..st.proj
                },
                ..st
            },
            SessionEventView::ToolCallFinished { result } => ReplayState {
                proj: ProjectionView {
                    open_tool_calls: remove_id(st.proj.open_tool_calls, result.call_id),
                    ..st.proj
                },
                ..st
            },
            SessionEventView::CheckpointCreated { checkpoint } => state_from_checkpoint(checkpoint),
            _ => st,
        }
    }
}

/// Replays a list of entries, in order.
pub open spec fn replay(st: ReplayState, es: Seq<LogEntryView>) -> ReplayState
    decreases es.len(),
{
    if es.len() == 0 {
        st
    } else {
        apply_entry(replay(st, es.drop_last()), es.last())
    }
}

/// The prompt projection of a journal under the given checkpoints.
pub open spec fn spec_build_prompt(es: Seq<LogEntryView>, cps: Seq<CheckpointView>) -> ProjectionView {
    replay(initial_state(cps), es).proj
}

/// The reconstructed state ready for a model prompt.
#[derive(Debug)]
pub struct PromptProjection {
    /// Summary of compacted events (injected as a system message).
    pub summary: Option<String>,
    /// Messages to include in the prompt.
    pub messages: Vec<Message>,
    /// Tool calls started but not yet finished.
    pub open_tool_calls: Vec<ToolCall>,
}

impl View for PromptProjection {
    type V = ProjectionView;

    open spec fn view(&self) -> ProjectionView {
        ProjectionView {
            summary: opt_view(self.summary),
            messages: msgs_view(self.messages@),
            open_tool_calls: calls_view(self.open_tool_calls@),
        }
    }
}

/// The prompt messages of a projection: the summary as a system message
/// (when present) followed by the projected messages.
pub open spec fn spec_prompt_messages(p: ProjectionView) -> Seq<MessageView> {
    match p.summary {
        Some(s) => seq![MessageView::System { content: seq![text_part(s)] }] + p.messages,
        None => p.messages,
    }
}

impl PromptProjection {
    /// The messages to send: the summary as a system message (when
    /// present), then the projected messages.
    pub fn to_prompt_messages(&self) -> (r: Vec<Message>)
        ensures
            msgs_view(r@) == spec_prompt_messages(self@),
    {
        let mut out: Vec<Message> = Vec::new();
        match &self.summary {
            Some(summary) => {
                out.push(Message::system_text(summary.clone()));
            },
            None => {},
        }
        let ghost prefix = msgs_view(out@);
        let ghost plen = out@.len();
        let mut i: usize = 0;
        while i < self.messages.len()
            invariant
                i <= self.messages.len(),
                out.len() == plen + i,
                prefix.len() == plen,
                forall|k: int| 0 <= k < plen ==> (#[trigger] out@[k])@ == prefix[k],
                forall|k: int| 0 <= k < i ==> (#[trigger] out@[plen + k])@ == self.messages@[k]@,
            decreases self.messages.len() - i,
        {
            out.push(self.messages[i].clone());
            i = i + 1;
        }
        assert(msgs_view(out@) =~= prefix + msgs_view(self.messages@)) by {
            assert forall|k: int| 0 <= k < out@.len() implies msgs_view(out@)[k] == (prefix
                + msgs_view(self.messages@))[k] by {
                if k >= plen {
                    assert(out@[plen + (k - plen)]@ == self.messages@[k - plen]@);
                }
            }
        }
        assert(msgs_view(out@) =~= spec_prompt_messages(self@));
        out
    }
}

/// Whether a call with the given identifier is open.
fn has_call_id(open: &Vec<ToolCall>, id: &String) -> (r: bool)
    ensures
        r == has_id(calls_view(open@), id@),
{
    let mut i: usize = 0;
    while i < open.len()
        invariant
            i <= open.len(),
            forall|k: int| 0 <= k < i ==> open@[k].id@ != id@,
        decreases open.len() - i,
    {
        if open[i].id == *id {
            assert(calls_view(open@)[i as int].id == id@);
            return true;
        }
        i = i + 1;
    }
    assert(!has_id(calls_view(open@), id@)) by {
        if has_id(calls_view(open@), id@) {
            let k = choose|k: int|
                0 <= k < calls_view(open@).len() && calls_view(open@)[k].id == id@;
            assert(open@[k].id@ == id@);
        }
    }
    false
}

/// Adds a call unless its identifier is already open.
fn add_call_exec(open: &mut Vec<ToolCall>, c: &ToolCall)
    ensures
        calls_view(final(open)@) == add_call(calls_view(old(open)@), c@),
{
    if !has_call_id(open, &c.id) {
        open.push(c.clone());
        assert(calls_view(open@) =~= calls_view(old(open)@).push(c@));
    }
}

/// Adds each call of a list, in order.
fn add_calls_exec(open: &mut Vec<ToolCall>, cs: &[ToolCall])
    ensures
        calls_view(final(open)@) == add_calls(calls_view(old(open)@), calls_view(cs@)),
{
    let mut i: usize = 0;
    while i < cs.len()
        invariant
            i <= cs.len(),
            calls_view(open@) == add_calls(calls_view(old(open)@), calls_view(cs@).take(i as int)),
        decreases cs.len() - i,
    {
        add_call_exec(open, &cs[i]);
        i = i + 1;
        assert(calls_view(cs@).take(i as int).drop_last() =~= calls_view(cs@).take(i - 1));
    }
    assert(calls_view(cs@).take(cs.len() as int) =~= calls_view(cs@));
}

/// Removes every call with the given identifier.
fn remove_id_exec(open: &Vec<ToolCall>, id: &String) -> (r: Vec<ToolCall>)
    ensures
        calls_view(r@) == remove_id(calls_view(open@), id@),
{
    let mut out: Vec<ToolCall> = Vec::new();
    let mut i: usize = 0;
    while i < open.len()
        invariant
            i <= open.len(),
            calls_view(out@) == remove_id(calls_view(open@).take(i as int), id@),
        decreases open.len() - i,
    {
        let ghost before = calls_view(out@);
        if open[i].id != *id {
            out.push(open[i].clone());
            assert(calls_view(out@) =~= before.push(open@[i as int]@));
        }
        i = i + 1;
        assert(calls_view(open@).take(i as int).drop_last() =~= calls_view(open@).take(i - 1));
    }
    assert(calls_view(open@).take(open.len() as int) =~= calls_view(open@));
    out
}

/// Tool calls left open by a list of messages.
fn reopen_tool_calls(messages: &Vec<Message>) -> (r: Vec<ToolCall>)
    ensures
        calls_view(r@) == reopen(msgs_view(messages@)),
{
    let mut open: Vec<ToolCall> = Vec::new();
    assert(calls_view(open@) =~= Seq::empty());
    let mut i: usize = 0;
    while i < messages.len()
        invariant
            i <= messages.len(),
            calls_view(open@) == reopen(msgs_view(messages@).take(i as int)),
        decreases messages.len() - i,
    {
        let msg = &messages[i];
        add_calls_exec(&mut open, msg.tool_calls());
        match msg {
            Message::Tool { tool_call_id, .. } => {
                open = remove_id_exec(&open, tool_call_id);
            },
            _ => {},
        }
        i = i + 1;
        assert(msgs_view(messages@).take(i as int).drop_last() =~= msgs_view(messages@).take(
            i - 1,
        ));
    }
    assert(msgs_view(messages@).take(messages.len() as int) =~= msgs_view(messages@));
    open
}

impl Journal {
    /// Builds the prompt projection from the journal and checkpoints.
    ///
    /// Starts from the latest checkpoint (if any), then replays the entries
    /// in order, skipping those below the current compaction offset; a
    /// checkpoint event replaces the state built so far.
    pub fn build_prompt(&self, checkpoints: &[SessionCheckpoint]) -> (r: PromptProjection)
        ensures
            r@ == spec_build_prompt(self@, checkpoints_view(checkpoints@)),
    {
        let mut messages: Vec<Message> = Vec::new();
        let mut open_tool_calls: Vec<ToolCall> = Vec::new();
        let mut summary: Option<String> = None;
        let mut compacted_until: u64 = 0;
        let n = checkpoints.len();
        if n > 0 {
            let cp = &checkpoints[n - 1];
            compacted_until = cp.compacted_until_offset;
            summary = clone_opt_string(&cp.summary);
            messages = clone_messages(&cp.preserved_messages);
            open_tool_calls = reopen_tool_calls(&messages);
        }
        proof {
            assert(msgs_view(messages@) =~= initial_state(checkpoints_view(checkpoints@)).proj.messages);
            assert(calls_view(open_tool_calls@) =~= initial_state(checkpoints_view(checkpoints@)).proj.open_tool_calls);
        }
        let mut i: usize = 0;
        while i < self.entries.len()
            invariant
                i <= self.entries.len(),
                ({
                    let st = replay(
                        initial_state(checkpoints_view(checkpoints@)),
                        self@.take(i as int),
                    );
                    &&& st.compacted_until == compacted_until
                    &&& st.proj.summary == opt_view(summary)
                    &&& st.proj.messages == msgs_view(messages@)
                    &&& st.proj.open_tool_calls == calls_view(open_tool_calls@)
                }),
            decreases self.entries.len() - i,
        {
            let entry = &self.entries[i];
            if entry.offset >= compacted_until {
                match &entry.event {
                    SessionEvent::MessageAppended { message } => {
                        add_calls_exec(&mut open_tool_calls, message.tool_calls());
                        let ghost before = msgs_view(messages@);
                        messages.push(message.clone());
                        assert(msgs_view(messages@) =~= before.push(message@));
                    },
                    SessionEvent::ToolCallStarted { call } => {
                        add_call_exec(&mut open_tool_calls, call);
                    },
                    SessionEvent::ToolCallFinished { result } => {
                        open_tool_calls = remove_id_exec(&open_tool_calls, &result.call_id);
                    },
                    SessionEvent::CheckpointCreated { checkpoint } => {
                        compacted_until = checkpoint.compacted_until_offset;
                        summary = clone_opt_string(&checkpoint.summary);
                        messages = clone_messages(&checkpoint.preserved_messages);
                        open_tool_calls = reopen_tool_calls(&messages);
                    },
                    _ => {},
                }
            }
            i = i + 1;
            assert(self@.take(i as int).drop_last() =~= self@.take(i - 1));
        }
        assert(self@.take(self.entries.len() as int) =~= self@);
        PromptProjection { summary, messages, open_tool_calls }
    }
}

/// Circuit breaker for compaction: opens after a number of consecutive
/// failures.
#[derive(Debug)]
pub struct CompactCircuitBreaker {
    max_consecutive_failures: usize,
    consecutive_failures: usize,
}

impl CompactCircuitBreaker {
    /// The configured failure limit.
    pub closed spec fn spec_max(&self) -> usize {
        self.max_consecutive_failures
    }

    /// The current number of consecutive failures.
    pub closed spec fn spec_failures(&self) -> usize {
        self.consecutive_failures
    }

    /// Whether the breaker is open.
    pub open spec fn spec_is_open(&self) -> bool {
        self.spec_failures() >= self.spec_max()
    }

    /// A closed breaker that opens after `max_consecutive_failures`
    /// consecutive failures.
    pub fn new(max_consecutive_failures: usize) -> (r: Self)
        ensures
            r.spec_max() == max_consecutive_failures,
            r.spec_failures() == 0,
    {
        CompactCircuitBreaker { max_consecutive_failures, consecutive_failures: 0 }
    }

    /// `true` when the consecutive failures reached the limit.
    pub fn is_open(&self) -> (r: bool)
        ensures
            r == self.spec_is_open(),
    {
        self.consecutive_failures >= self.max_consecutive_failures
    }

    /// The number of consecutive failures.
    pub fn consecutive_failures(&self) -> (r: usize)
        ensures
            r == self.spec_failures(),
    {
        self.consecutive_failures
    }

    /// Records a success: the failure count returns to zero.
    pub fn record_success(&mut self)
        ensures
            final(self).spec_failures() == 0,
            final(self).spec_max() == old(self).spec_max(),
    {
        self.consecutive_failures = 0;
    }

    /// Records a failure: the count grows by one (saturating).
    pub fn record_failure(&mut self)
        ensures
            final(self).spec_failures() == (if old(self).spec_failures() < usize::MAX {
                old(self).spec_failures() + 1
            } else {
                usize::MAX as int
            }),
            final(self).spec_max() == old(self).spec_max(),
    {
        if self.consecutive_failures < usize::MAX {
            self.consecutive_failures = self.consecutive_failures + 1;
        }
    }

    /// Closes the breaker.
    pub fn reset(&mut self)
        ensures
            final(self).spec_failures() == 0,
            final(self).spec_max() == old(self).spec_max(),
    {
        self.consecutive_failures = 0;
    }
}



/// A well-formed journal has strictly increasing offsets below
/// `u64::MAX`, and its next offset is one past the last entry.
pub proof fn lemma_wf_facts(j: &Journal)
    requires
        j.wf(),
    ensures
        offsets_increasing(j@),
        forall|i: int| 0 <= i < j@.len() ==> #[trigger] j@[i].offset < u64::MAX,
        j.spec_next_offset() == next_after(j@),
{
}

/// Restoring a journal from its own exported entries gives back the same
/// entries and the same next offset.
pub proof fn lemma_restore_roundtrip(j: &Journal)
    requires
        j.wf(),
    ensures
        offsets_increasing(j@),
        forall|i: int| 0 <= i < j@.len() ==> #[trigger] j@[i].offset < u64::MAX,
        next_after(j@) == j.spec_next_offset(),
{
}

/// Copies a list of entries.
pub fn clone_entries(v: &[LogEntry]) -> (r: Vec<LogEntry>)
    ensures
        entries_view(r@) == entries_view(v@),
{
    let mut r: Vec<LogEntry> = Vec::new();
    let mut i: usize = 0;
    while i < v.len()
        invariant
            i <= v.len(),
            r.len() == i,
            forall|k: int| 0 <= k < i ==> (#[trigger] r@[k])@ == v@[k]@,
        decreases v.len() - i,
    {
        r.push(v[i].clone());
        i = i + 1;
    }
    assert(entries_view(r@) =~= entries_view(v@));
    r
}

/// The messages of the `MessageAppended` events of a list of entries.
pub open spec fn appended_messages(es: Seq<LogEntryView>) -> Seq<MessageView>
    decreases es.len(),
{
    if es.len() == 0 {
        Seq::empty()
    } else {
        match es.last().event {
            SessionEventView::MessageAppended { message } => appended_messages(es.drop_last()).push(
                message,
            ),
            _ => appended_messages(es.drop_last()),
        }
    }
}

/// Whether no entry of the list creates a checkpoint.
pub open spec fn no_checkpoint_events(es: Seq<LogEntryView>) -> bool {
    forall|i: int| 0 <= i < es.len() ==> !(#[trigger] es[i].event is CheckpointCreated)
}

/// Without checkpoints, the projection of a journal holds exactly the
/// appended messages, in the order they were recorded, and no summary.
pub proof fn lemma_projection_without_checkpoints(es: Seq<LogEntryView>)
    requires
        no_checkpoint_events(es),
    ensures
        spec_build_prompt(es, Seq::empty()).messages == appended_messages(es),
        spec_build_prompt(es, Seq::empty()).summary is None,
    decreases es.len(),
{
    if es.len() > 0 {
        assert(no_checkpoint_events(es.drop_last())) by {
            assert forall|i: int| 0 <= i < es.drop_last().len() implies !(
            #[trigger] es.drop_last()[i].event is CheckpointCreated) by {
                assert(es.drop_last()[i] == es[i]);
            }
        }
        lemma_projection_without_checkpoints(es.drop_last());
        lemma_replay_keeps_zero_offset(es.drop_last());
        assert(!(es[es.len() - 1].event is CheckpointCreated));
    }
}

/// Without checkpoint events the compaction offset stays at zero.
proof fn lemma_replay_keeps_zero_offset(es: Seq<LogEntryView>)
    requires
        no_checkpoint_events(es),
    ensures
        replay(initial_state(Seq::empty()), es).compacted_until == 0,
    decreases es.len(),
{
    if es.len() > 0 {
        assert(no_checkpoint_events(es.drop_last())) by {
            assert forall|i: int| 0 <= i < es.drop_last().len() implies !(
            #[trigger] es.drop_last()[i].event is CheckpointCreated) by {
                assert(es.drop_last()[i] == es[i]);
            }
        }
        lemma_replay_keeps_zero_offset(es.drop_last());
        assert(!(es[es.len() - 1].event is CheckpointCreated));
    }
}

/// After a call identifier is removed it is no longer open, and removal
/// keeps every other open call.
pub proof fn lemma_remove_id_closes(open: Seq<ToolCallView>, id: Seq<char>)
    ensures
        !has_id(remove_id(open, id), id),
        forall|c: ToolCallView| open.contains(c) && c.id != id ==> remove_id(open, id).contains(c),
    decreases open.len(),
{
    if open.len() > 0 {
        lemma_remove_id_closes(open.drop_last(), id);
        let r = remove_id(open.drop_last(), id);
        if open.last().id != id {
            assert(!has_id(r.push(open.last()), id)) by {
                if has_id(r.push(open.last()), id) {
                    let k = choose|k: int| 0 <= k < r.push(open.last()).len() && r.push(open.last())[k].id == id;
                    if k < r.len() {
                        assert(r[k].id == id);
                    }
                }
            }
        }
        assert forall|c: ToolCallView| open.contains(c) && c.id != id implies remove_id(open, id).contains(c) by {
            let k = choose|k: int| 0 <= k < open.len() && open[k] == c;
            if k < open.len() - 1 {
                assert(open.drop_last()[k] == c);
                assert(open.drop_last().contains(c));
                let m = choose|m: int| 0 <= m < r.len() && r[m] == c;
                if open.last().id != id {
                    assert(r.push(open.last())[m] == c);
                }
            } else {
                assert(remove_id(open, id) == r.push(open.last()));
                assert(remove_id(open, id)[r.len() as int] == c);
            }
        }
    }
}

} // verus!
