//! Event actions that hooks return, their merge, and the subscription
//! kinds by which listeners select agent-runtime and chat-stream events.
//!
//! JSON values (state changes, tool arguments, progress data) are carried
//! as serialized JSON text.
use vstd::prelude::*;

use crate::agent_event::{event_kind, event_run_id, AgentEvent};
use crate::message::opt_view;
use crate::openai_stream::{ChatStreamEvent, ChatStreamEventView};

verus! {

// ---------------------------------------------------------------------
// Event actions
// ---------------------------------------------------------------------

/// A request for human approval of a tool call.
#[derive(Debug)]
pub struct ApprovalRequest {
    /// The call requiring approval.
    pub call_id: String,
    /// The tool name.
    pub tool_name: String,
    /// The tool arguments, as JSON text.
    pub arguments: String,
    /// Human-readable reason approval is needed.
    pub reason: String,
    /// Timeout for the approval request, in seconds.
    pub timeout_secs: Option<u64>,
}

/// Abstract value of an approval request.
pub struct ApprovalRequestView {
    /// Call identifier.
    pub call_id: Seq<char>,
    /// Tool name.
    pub tool_name: Seq<char>,
    /// Arguments.
    pub arguments: Seq<char>,
    /// Reason.
    pub reason: Seq<char>,
    /// Timeout in seconds.
    pub timeout_secs: Option<u64>,
}

impl View for ApprovalRequest {
    type V = ApprovalRequestView;

    open spec fn view(&self) -> ApprovalRequestView {
        ApprovalRequestView {
            call_id: self.call_id@,
            tool_name: self.tool_name@,
            arguments: self.arguments@,
            reason: self.reason@,
            timeout_secs: self.timeout_secs,
        }
    }
}

/// A progress event emitted during tool execution or other long-running
/// operations.
#[derive(Debug)]
pub struct ProgressEvent {
    /// Progress status label.
    pub status: String,
    /// Progress data, as JSON text.
    pub data: String,
}

/// Abstract value of a progress event.
pub struct ProgressEventView {
    /// Status label.
    pub status: Seq<char>,
    /// Data.
    pub data: Seq<char>,
}

impl View for ProgressEvent {
    type V = ProgressEventView;

    open spec fn view(&self) -> ProgressEventView {
        ProgressEventView { status: self.status@, data: self.data@ }
    }
}

/// Side-effect declarations associated with an event: what should happen
/// next, without performing it.
#[derive(Debug)]
pub struct EventActions {
    /// State changes to apply to the session: key and JSON value; a later
    /// entry for a key overrides an earlier one.
    pub state_delta: Vec<(String, String)>,
    /// Persist the current conversation to storage.
    pub persist_conversation: bool,
    /// Request memory compaction.
    pub compact_memory: bool,
    /// Request memory demotion.
    pub demote_memory: bool,
    /// Request tool approval.
    pub request_approval: Option<ApprovalRequest>,
    /// Emit a progress event.
    pub emit_progress: Option<ProgressEvent>,
    /// Notify the user.
    pub notify_user: Option<String>,
    /// Write a trace event.
    pub write_trace: Option<String>,
}

/// Abstract value of a set of actions.
pub struct EventActionsView {
    /// State changes by key.
    pub state_delta: Map<Seq<char>, Seq<char>>,
    /// Persist flag.
    pub persist_conversation: bool,
    /// Compaction flag.
    pub compact_memory: bool,
    /// Demotion flag.
    pub demote_memory: bool,
    /// Approval request.
    pub request_approval: Option<ApprovalRequestView>,
    /// Progress event.
    pub emit_progress: Option<ProgressEventView>,
    /// User notification.
    pub notify_user: Option<Seq<char>>,
    /// Trace event.
    pub write_trace: Option<Seq<char>>,
}

/// The table of state changes of a list of entries: each entry sets its
/// key, later entries overriding earlier ones.
pub open spec fn delta_table(s: Seq<(String, String)>) -> Map<Seq<char>, Seq<char>>
    decreases s.len(),
{
    if s.len() == 0 {
        Map::empty()
    } else {
        delta_table(s.drop_last()).insert(s.last().0@, s.last().1@)
    }
}

impl View for EventActions {
    type V = EventActionsView;

    open spec fn view(&self) -> EventActionsView {
        EventActionsView {
            state_delta: delta_table(self.state_delta@),
            persist_conversation: self.persist_conversation,
            compact_memory: self.compact_memory,
            demote_memory: self.demote_memory,
            request_approval: match self.request_approval {
                Some(a) => Some(a@),
                None => None,
            },
            emit_progress: match self.emit_progress {
                Some(p) => Some(p@),
                None => None,
            },
            notify_user: opt_view(self.notify_user),
            write_trace: opt_view(self.write_trace),
        }
    }
}

/// No actions at all.
pub open spec fn no_actions() -> EventActionsView {
    EventActionsView {
        state_delta: Map::empty(),
        persist_conversation: false,
        compact_memory: false,
        demote_memory: false,
        request_approval: None,
        emit_progress: None,
        notify_user: None,
        write_trace: None,
    }
}

/// The later of two optional values: the second when present.
pub open spec fn later<T>(a: Option<T>, b: Option<T>) -> Option<T> {
    if b is Some {
        b
    } else {
        a
    }
}

/// Two action sets combined: state changes merged with the second's
/// overriding, flags or'ed, each option taken from the second when
/// present.
pub open spec fn combine(a: EventActionsView, b: EventActionsView) -> EventActionsView {
    EventActionsView {
        state_delta: a.state_delta.union_prefer_right(b.state_delta),
        persist_conversation: a.persist_conversation || b.persist_conversation,
        compact_memory: a.compact_memory || b.compact_memory,
        demote_memory: a.demote_memory || b.demote_memory,
        request_approval: later(a.request_approval, b.request_approval),
        emit_progress: later(a.emit_progress, b.emit_progress),
        notify_user: later(a.notify_user, b.notify_user),
        write_trace: later(a.write_trace, b.write_trace),
    }
}

/// Many action sets combined in order.
pub open spec fn merged(s: Seq<EventActionsView>) -> EventActionsView
    decreases s.len(),
{
    if s.len() == 0 {
        no_actions()
    } else {
        combine(merged(s.drop_last()), s.last())
    }
}

/// The views of a list of action sets.
pub open spec fn actions_view(s: Seq<EventActions>) -> Seq<EventActionsView> {
    s.map_values(|a: EventActions| a@)
}

/// Whether no key occurs twice in a list of entries.
pub open spec fn distinct_keys(s: Seq<(String, String)>) -> bool {
    forall|a: int, b: int| 0 <= a < b < s.len() ==> (#[trigger] s[a]).0@ != (#[trigger] s[b]).0@
}

pub(crate) proof fn lemma_delta_table_push(s: Seq<(String, String)>, x: (String, String))
    ensures
        delta_table(s.push(x)) == delta_table(s).insert(x.0@, x.1@),
{
    assert(s.push(x).drop_last() =~= s);
}

pub(crate) proof fn lemma_delta_table_update(s: Seq<(String, String)>, p: int, x: (String, String))
    requires
        distinct_keys(s),
        0 <= p < s.len(),
        s[p].0@ == x.0@,
    ensures
        distinct_keys(s.update(p, x)),
        delta_table(s.update(p, x)) == delta_table(s).insert(x.0@, x.1@),
    decreases s.len(),
{
    let t = s.update(p, x);
    assert forall|a: int, b: int| 0 <= a < b < t.len() implies (#[trigger] t[a]).0@ != (
    #[trigger] t[b]).0@ by {
        assert(t[a].0@ == s[a].0@);
        assert(t[b].0@ == s[b].0@);
    }
    if p == s.len() - 1 {
        assert(t.drop_last() =~= s.drop_last());
        assert(delta_table(t) =~= delta_table(s).insert(x.0@, x.1@));
    } else {
        let s1 = s.drop_last();
        assert(distinct_keys(s1));
        lemma_delta_table_update(s1, p, x);
        assert(t.drop_last() =~= s1.update(p, x));
        assert(s.last().0@ != x.0@) by {
            assert(s[p].0@ != s[s.len() - 1].0@);
        }
        assert(delta_table(t) =~= delta_table(s).insert(x.0@, x.1@));
    }
}

/// Sets one state change in a delta whose keys are distinct: replaces
/// the value of an existing key, or adds the key.
pub(crate) fn set_entry(delta: &mut Vec<(String, String)>, key: &String, value: &String)
    requires
        distinct_keys(old(delta)@),
    ensures
        distinct_keys(final(delta)@),
        delta_table(final(delta)@) == delta_table(old(delta)@).insert(key@, value@),
{
    let mut p: usize = 0;
    while p < delta.len()
        invariant
            p <= delta.len(),
            delta@ == old(delta)@,
            distinct_keys(delta@),
            forall|j: int| 0 <= j < p ==> (#[trigger] delta@[j]).0@ != key@,
        decreases delta.len() - p,
    {
        if delta[p].0 == *key {
            let ghost before = delta@;
            let entry = (key.clone(), value.clone());
            delta.set(p, entry);
            proof {
                lemma_delta_table_update(before, p as int, entry);
            }
            return;
        }
        p = p + 1;
    }
    let ghost before = delta@;
    let entry = (key.clone(), value.clone());
    delta.push(entry);
    proof {
        lemma_delta_table_push(before, entry);
        assert forall|a: int, b: int| 0 <= a < b < delta@.len() implies (#[trigger] delta@[a]).0@
            != (#[trigger] delta@[b]).0@ by {
            if b == delta@.len() - 1 {
                assert(delta@[a] == before[a]);
            } else {
                assert(delta@[a] == before[a]);
                assert(delta@[b] == before[b]);
            }
        }
    }
}

/// In a list without repeated keys, each entry's key maps to its value.
pub(crate) proof fn lemma_delta_table_at(s: Seq<(String, String)>, p: int)
    requires
        distinct_keys(s),
        0 <= p < s.len(),
    ensures
        delta_table(s).contains_key(s[p].0@),
        delta_table(s)[s[p].0@] == s[p].1@,
    decreases s.len(),
{
    if p < s.len() - 1 {
        let s1 = s.drop_last();
        assert(distinct_keys(s1));
        assert(s1[p] == s[p]);
        lemma_delta_table_at(s1, p);
        assert(s[p].0@ != s[s.len() - 1].0@);
    }
}

/// A key that no entry has is not in the table.
pub(crate) proof fn lemma_delta_table_absent(s: Seq<(String, String)>, k: Seq<char>)
    requires
        forall|j: int| 0 <= j < s.len() ==> (#[trigger] s[j]).0@ != k,
    ensures
        !delta_table(s).contains_key(k),
    decreases s.len(),
{
    if s.len() > 0 {
        let s1 = s.drop_last();
        assert forall|j: int| 0 <= j < s1.len() implies (#[trigger] s1[j]).0@ != k by {
            assert(s1[j] == s[j]);
        }
        lemma_delta_table_absent(s1, k);
    }
}

/// Removing the entry of a key removes the key from the table.
pub(crate) proof fn lemma_delta_table_remove(s: Seq<(String, String)>, p: int)
    requires
        distinct_keys(s),
        0 <= p < s.len(),
    ensures
        distinct_keys(s.remove(p)),
        delta_table(s.remove(p)) == delta_table(s).remove(s[p].0@),
    decreases s.len(),
{
    let t = s.remove(p);
    let k = s[p].0@;
    assert forall|a: int, b: int| 0 <= a < b < t.len() implies (#[trigger] t[a]).0@ != (
    #[trigger] t[b]).0@ by {
        let sa = if a < p { a } else { a + 1 };
        let sb = if b < p { b } else { b + 1 };
        assert(t[a] == s[sa]);
        assert(t[b] == s[sb]);
    }
    if p == s.len() - 1 {
        assert(t =~= s.drop_last());
        assert forall|j: int| 0 <= j < t.len() implies (#[trigger] t[j]).0@ != k by {
            assert(t[j] == s[j]);
        }
        lemma_delta_table_absent(t, k);
        assert(delta_table(t) =~= delta_table(s).remove(k));
    } else {
        let s1 = s.drop_last();
        assert(distinct_keys(s1));
        lemma_delta_table_remove(s1, p);
        assert(t.drop_last() =~= s1.remove(p));
        assert(t.last() == s.last());
        assert(s.last().0@ != k);
        assert(delta_table(t) =~= delta_table(s).remove(k));
    }
}

/// Copies an approval request.
fn clone_approval(a: &Option<ApprovalRequest>) -> (r: Option<ApprovalRequest>)
    ensures
        match (r, *a) {
            (Some(x), Some(y)) => x@ == y@,
            (None, None) => true,
            _ => false,
        },
{
    match a {
        Some(x) => Some(
            ApprovalRequest {
                call_id: x.call_id.clone(),
                tool_name: x.tool_name.clone(),
                arguments: x.arguments.clone(),
                reason: x.reason.clone(),
                timeout_secs: x.timeout_secs,
            },
        ),
        None => None,
    }
}

/// Copies a progress event.
fn clone_progress(p: &Option<ProgressEvent>) -> (r: Option<ProgressEvent>)
    ensures
        match (r, *p) {
            (Some(x), Some(y)) => x@ == y@,
            (None, None) => true,
            _ => false,
        },
{
    match p {
        Some(x) => Some(ProgressEvent { status: x.status.clone(), data: x.data.clone() }),
        None => None,
    }
}

impl EventActions {
    /// An empty set of actions.
    pub fn new() -> (r: Self)
        ensures
            r@ == no_actions(),
            r.state_delta@.len() == 0,
    {
        let r = EventActions {
            state_delta: Vec::new(),
            persist_conversation: false,
            compact_memory: false,
            demote_memory: false,
            request_approval: None,
            emit_progress: None,
            notify_user: None,
            write_trace: None,
        };
        assert(r@.state_delta =~= Map::<Seq<char>, Seq<char>>::empty());
        r
    }

    /// Merges action sets in order: state changes merged (later values
    /// override earlier ones), flags or'ed, options taken from the last
    /// set that has them.
    pub fn merge(actions: Vec<Self>) -> (r: Self)
        ensures
            r@ == merged(actions_view(actions@)),
            distinct_keys(r.state_delta@),
    {
        let mut m = EventActions::new();
        let ghost s = actions_view(actions@);
        let mut k: usize = 0;
        assert(s.take(0) =~= Seq::<EventActionsView>::empty());
        while k < actions.len()
            invariant
                k <= actions.len(),
                s == actions_view(actions@),
                distinct_keys(m.state_delta@),
                m@ == merged(s.take(k as int)),
            decreases actions.len() - k,
        {
            let a = &actions[k];
            let ghost before = m@;
            let mut j: usize = 0;
            assert(a.state_delta@.take(0) =~= Seq::<(String, String)>::empty());
            while j < a.state_delta.len()
                invariant
                    j <= a.state_delta.len(),
                    distinct_keys(m.state_delta@),
                    m@.persist_conversation == before.persist_conversation,
                    m@.compact_memory == before.compact_memory,
                    m@.demote_memory == before.demote_memory,
                    m@.request_approval == before.request_approval,
                    m@.emit_progress == before.emit_progress,
                    m@.notify_user == before.notify_user,
                    m@.write_trace == before.write_trace,
                    delta_table(m.state_delta@) == before.state_delta.union_prefer_right(
                        delta_table(a.state_delta@.take(j as int)),
                    ),
                decreases a.state_delta.len() - j,
            {
                set_entry(&mut m.state_delta, &a.state_delta[j].0, &a.state_delta[j].1);
                proof {
                    assert(a.state_delta@.take(j + 1).drop_last() =~= a.state_delta@.take(j as int));
                    assert(delta_table(m.state_delta@) =~= before.state_delta.union_prefer_right(
                        delta_table(a.state_delta@.take(j + 1)),
                    ));
                }
                j = j + 1;
            }
            assert(a.state_delta@.take(a.state_delta.len() as int) =~= a.state_delta@);
            m.persist_conversation = m.persist_conversation || a.persist_conversation;
            m.compact_memory = m.compact_memory || a.compact_memory;
            m.demote_memory = m.demote_memory || a.demote_memory;
            if a.request_approval.is_some() {
                m.request_approval = clone_approval(&a.request_approval);
            }
            if a.emit_progress.is_some() {
                m.emit_progress = clone_progress(&a.emit_progress);
            }
            if a.notify_user.is_some() {
                m.notify_user = crate::message::clone_opt_string(&a.notify_user);
            }
            if a.write_trace.is_some() {
                m.write_trace = crate::message::clone_opt_string(&a.write_trace);
            }
            proof {
                assert(s.take(k + 1).drop_last() =~= s.take(k as int));
                assert(s[k as int] == a@);
                assert(m@ == combine(before, a@));
            }
            k = k + 1;
        }
        assert(s.take(actions.len() as int) =~= s);
        m
    }
}

impl Default for EventActions {
    fn default() -> (r: Self)
        ensures
            r@ == no_actions(),
    {
        EventActions::new()
    }
}

/// Merging is compositional: merging a list is merging the merges of its
/// two parts.
pub proof fn lemma_merge_append(a: Seq<EventActionsView>, b: Seq<EventActionsView>)
    ensures
        merged(a + b) == combine(merged(a), merged(b)),
    decreases b.len(),
{
    if b.len() == 0 {
        assert(a + b =~= a);
        let x = merged(a);
        assert(x.state_delta.union_prefer_right(Map::empty()) =~= x.state_delta);
    } else {
        assert((a + b).drop_last() =~= a + b.drop_last());
        lemma_merge_append(a, b.drop_last());
        let x = merged(a);
        let y = merged(b.drop_last());
        let z = b.last();
        assert(x.state_delta.union_prefer_right(y.state_delta).union_prefer_right(z.state_delta)
            =~= x.state_delta.union_prefer_right(y.state_delta.union_prefer_right(z.state_delta)));
    }
}

/// Merging one action set gives it back; flags of a merge are set exactly
/// when some merged set has them.
pub proof fn lemma_merge_laws(s: Seq<EventActionsView>)
    ensures
        s.len() == 1 ==> merged(s) == s[0],
        merged(s).persist_conversation <==> exists|i: int| 0 <= i < s.len() && (#[trigger] s[i]).persist_conversation,
        merged(s).compact_memory <==> exists|i: int| 0 <= i < s.len() && (#[trigger] s[i]).compact_memory,
        merged(s).demote_memory <==> exists|i: int| 0 <= i < s.len() && (#[trigger] s[i]).demote_memory,
    decreases s.len(),
{
    if s.len() > 0 {
        lemma_merge_laws(s.drop_last());
        if s.len() == 1 {
            let x = s[0];
            assert(s.drop_last() =~= Seq::<EventActionsView>::empty());
            assert(Map::<Seq<char>, Seq<char>>::empty().union_prefer_right(x.state_delta) =~= x.state_delta);
        }
        if exists|i: int| 0 <= i < s.len() && (#[trigger] s[i]).persist_conversation {
            let i = choose|i: int| 0 <= i < s.len() && (#[trigger] s[i]).persist_conversation;
            if i < s.len() - 1 {
                assert(s.drop_last()[i] == s[i]);
            }
        }
        if exists|i: int| 0 <= i < s.len() && (#[trigger] s[i]).compact_memory {
            let i = choose|i: int| 0 <= i < s.len() && (#[trigger] s[i]).compact_memory;
            if i < s.len() - 1 {
                assert(s.drop_last()[i] == s[i]);
            }
        }
        if exists|i: int| 0 <= i < s.len() && (#[trigger] s[i]).demote_memory {
            let i = choose|i: int| 0 <= i < s.len() && (#[trigger] s[i]).demote_memory;
            if i < s.len() - 1 {
                assert(s.drop_last()[i] == s[i]);
            }
        }
        if merged(s.drop_last()).persist_conversation {
            let i = choose|i: int| 0 <= i < s.len() - 1 && (#[trigger] s.drop_last()[i]).persist_conversation;
            assert(s[i] == s.drop_last()[i]);
        }
        if merged(s.drop_last()).compact_memory {
            let i = choose|i: int| 0 <= i < s.len() - 1 && (#[trigger] s.drop_last()[i]).compact_memory;
            assert(s[i] == s.drop_last()[i]);
        }
        if merged(s.drop_last()).demote_memory {
            let i = choose|i: int| 0 <= i < s.len() - 1 && (#[trigger] s.drop_last()[i]).demote_memory;
            assert(s[i] == s.drop_last()[i]);
        }
    }
}

// ---------------------------------------------------------------------
// Event kinds
// ---------------------------------------------------------------------

/// The kind of an agent-runtime event (its variant).
#[derive(Debug, Clone, Copy, PartialEq, Eq, Structural)]
pub enum AgentEventKind {
    /// Run has started.
    RunStarted,
    /// Context has been built.
    ContextBuilt,
    /// Model call has started.
    ModelStarted,
    /// Text delta from model.
    TextDelta,
    /// Tool call has started.
    ToolCallStarted,
    /// Tool call arguments delta.
    ToolCallDelta,
    /// Tool call has completed.
    ToolCallCompleted,
    /// Tool execution has started.
    ToolExecutionStarted,
    /// Tool execution has finished.
    ToolExecutionFinished,
    /// Assistant message has been committed to store.
    AssistantMessageCommitted,
    /// Tool message has been committed to store.
    ToolMessageCommitted,
    /// Usage has been recorded.
    UsageRecorded,
    /// Prompt cache metrics from a single model call.
    CacheMetrics,
    /// Run has completed successfully.
    RunCompleted,
    /// Run has failed.
    RunFailed,
    /// Run has been cancelled.
    RunCancelled,
    /// Doom loop has been detected.
    DoomLoopDetected,
    /// Compaction circuit breaker has opened.
    CompactionCircuitOpened,
}

impl AgentEventKind {
    /// Whether an event of this kind ends a run: completed, failed or
    /// cancelled.
    pub fn is_terminal(self) -> (r: bool)
        ensures
            r == (self is RunCompleted || self is RunFailed || self is RunCancelled),
    {
        match self {
            AgentEventKind::RunCompleted | AgentEventKind::RunFailed
            | AgentEventKind::RunCancelled => true,
            _ => false,
        }
    }
}

/// Kind of event a listener can subscribe to: one per agent-runtime event,
/// one per chat-stream event, and `Any`.
#[derive(Debug, Clone, Copy, PartialEq, Eq, Hash, Structural)]
pub enum EventKind {
    /// Matches any event.
    Any,
    /// Agent run started.
    RunStarted,
    /// Context built.
    ContextBuilt,
    /// Model call started.
    ModelStarted,
    /// Text delta from model.
    TextDelta,
    /// Tool call started.
    ToolCallStarted,
    /// Tool call arguments delta.
    ToolCallDelta,
    /// Tool call completed.
    ToolCallCompleted,
    /// Tool execution started.
    ToolExecutionStarted,
    /// Tool execution finished.
    ToolExecutionFinished,
    /// Assistant message committed to store.
    AssistantMessageCommitted,
    /// Tool message committed to store.
    ToolMessageCommitted,
    /// Usage recorded.
    UsageRecorded,
    /// Prompt cache metrics from a single model call.
    CacheMetrics,
    /// Run completed successfully.
    RunCompleted,
    /// Run failed.
    RunFailed,
    /// Run cancelled.
    RunCancelled,
    /// Doom loop detected.
    DoomLoopDetected,
    /// Compaction circuit breaker opened.
    CompactionCircuitOpened,
    /// Chat stream started.
    ChatStarted,
    /// Chat stream text delta.
    ChatTextDelta,
    /// Chat stream tool call started.
    ChatToolCallStarted,
    /// Chat stream tool call arguments delta.
    ChatToolCallArgumentsDelta,
    /// Chat stream tool call completed.
    ChatToolCallCompleted,
    /// Chat stream finished.
    ChatFinished,
}

/// The subscription kind of an agent-runtime event.
pub open spec fn agent_event_kind(e: AgentEventKind) -> EventKind {
    match e {
        AgentEventKind::RunStarted => EventKind::RunStarted,
        AgentEventKind::ContextBuilt => EventKind::ContextBuilt,
        AgentEventKind::ModelStarted => EventKind::ModelStarted,
        AgentEventKind::TextDelta => EventKind::TextDelta,
        AgentEventKind::ToolCallStarted => EventKind::ToolCallStarted,
        AgentEventKind::ToolCallDelta => EventKind::ToolCallDelta,
        AgentEventKind::ToolCallCompleted => EventKind::ToolCallCompleted,
        AgentEventKind::ToolExecutionStarted => EventKind::ToolExecutionStarted,
        AgentEventKind::ToolExecutionFinished => EventKind::ToolExecutionFinished,
        AgentEventKind::AssistantMessageCommitted => EventKind::AssistantMessageCommitted,
        AgentEventKind::ToolMessageCommitted => EventKind::ToolMessageCommitted,
        AgentEventKind::UsageRecorded => EventKind::UsageRecorded,
        AgentEventKind::CacheMetrics => EventKind::CacheMetrics,
        AgentEventKind::RunCompleted => EventKind::RunCompleted,
        AgentEventKind::RunFailed => EventKind::RunFailed,
        AgentEventKind::RunCancelled => EventKind::RunCancelled,
        AgentEventKind::DoomLoopDetected => EventKind::DoomLoopDetected,
        AgentEventKind::CompactionCircuitOpened => EventKind::CompactionCircuitOpened,
    }
}

/// The subscription kind of a chat-stream event.
pub open spec fn chat_event_kind(e: ChatStreamEventView) -> EventKind {
    match e {
        ChatStreamEventView::Started { .. } => EventKind::ChatStarted,
        ChatStreamEventView::TextDelta { .. } => EventKind::ChatTextDelta,
        ChatStreamEventView::ToolCallStarted { .. } => EventKind::ChatToolCallStarted,
        ChatStreamEventView::ToolCallArgumentsDelta { .. } => EventKind::ChatToolCallArgumentsDelta,
        ChatStreamEventView::ToolCallCompleted { .. } => EventKind::ChatToolCallCompleted,
        ChatStreamEventView::Finished { .. } => EventKind::ChatFinished,
    }
}

/// Whether a kind is one of the chat-stream kinds.
pub open spec fn is_chat_kind(k: EventKind) -> bool {
    ||| k is ChatStarted
    ||| k is ChatTextDelta
    ||| k is ChatToolCallStarted
    ||| k is ChatToolCallArgumentsDelta
    ||| k is ChatToolCallCompleted
    ||| k is ChatFinished
}

/// An event a listener receives: an agent-runtime event or a chat-stream
/// event.
#[derive(Debug)]
pub enum InvocationEvent {
    /// Event from the agent runtime event bus.
    Agent(AgentEvent),
    /// Event from a chat stream.
    Chat(ChatStreamEvent),
}

impl InvocationEvent {
    /// The run of an agent-runtime event; chat-stream events carry none.
    pub fn run_id(&self) -> (r: Option<u128>)
        ensures
            r == match self {
                InvocationEvent::Agent(e) => Some(event_run_id(*e)),
                InvocationEvent::Chat(_) => None::<u128>,
            },
    {
        match self {
            InvocationEvent::Agent(e) => Some(e.run_id()),
            InvocationEvent::Chat(_) => None,
        }
    }

    /// The agent-runtime event, for the agent variant.
    pub fn as_agent(&self) -> (r: Option<&AgentEvent>)
        ensures
            match self {
                InvocationEvent::Agent(e) => r == Some(e),
                InvocationEvent::Chat(_) => r is None,
            },
    {
        match self {
            InvocationEvent::Agent(e) => Some(e),
            InvocationEvent::Chat(_) => None,
        }
    }
}

impl EventKind {
    /// The kind of an agent-runtime event.
    pub fn of_agent(event: AgentEventKind) -> (r: EventKind)
        ensures
            r == agent_event_kind(event),
    {
        match event {
            AgentEventKind::RunStarted => EventKind::RunStarted,
            AgentEventKind::ContextBuilt => EventKind::ContextBuilt,
            AgentEventKind::ModelStarted => EventKind::ModelStarted,
            AgentEventKind::TextDelta => EventKind::TextDelta,
            AgentEventKind::ToolCallStarted => EventKind::ToolCallStarted,
            AgentEventKind::ToolCallDelta => EventKind::ToolCallDelta,
            AgentEventKind::ToolCallCompleted => EventKind::ToolCallCompleted,
            AgentEventKind::ToolExecutionStarted => EventKind::ToolExecutionStarted,
            AgentEventKind::ToolExecutionFinished => EventKind::ToolExecutionFinished,
            AgentEventKind::AssistantMessageCommitted => EventKind::AssistantMessageCommitted,
            AgentEventKind::ToolMessageCommitted => EventKind::ToolMessageCommitted,
            AgentEventKind::UsageRecorded => EventKind::UsageRecorded,
            AgentEventKind::CacheMetrics => EventKind::CacheMetrics,
            AgentEventKind::RunCompleted => EventKind::RunCompleted,
            AgentEventKind::RunFailed => EventKind::RunFailed,
            AgentEventKind::RunCancelled => EventKind::RunCancelled,
            AgentEventKind::DoomLoopDetected => EventKind::DoomLoopDetected,
            AgentEventKind::CompactionCircuitOpened => EventKind::CompactionCircuitOpened,
        }
    }

    /// The kind of a chat-stream event.
    pub fn of_chat(event: &ChatStreamEvent) -> (r: EventKind)
        ensures
            r == chat_event_kind(event@),
    {
        match event {
            ChatStreamEvent::Started { .. } => EventKind::ChatStarted,
            ChatStreamEvent::TextDelta { .. } => EventKind::ChatTextDelta,
            ChatStreamEvent::ToolCallStarted { .. } => EventKind::ChatToolCallStarted,
            ChatStreamEvent::ToolCallArgumentsDelta { .. } => EventKind::ChatToolCallArgumentsDelta,
            ChatStreamEvent::ToolCallCompleted { .. } => EventKind::ChatToolCallCompleted,
            ChatStreamEvent::Finished { .. } => EventKind::ChatFinished,
        }
    }

    /// Whether an agent-runtime event matches this kind: `Any`, or the
    /// event's own kind.
    pub fn matches_agent(self, event: &AgentEvent) -> (r: bool)
        ensures
            r == (self is Any || self == agent_event_kind(event_kind(*event))),
    {
        match self {
            EventKind::Any => true,
            _ => self == EventKind::of_agent(event.kind()),
        }
    }

    /// Whether a chat-stream event matches this kind: `Any`, or the
    /// event's own kind.
    pub fn matches_chat(self, event: &ChatStreamEvent) -> (r: bool)
        ensures
            r == (self is Any || self == chat_event_kind(event@)),
    {
        match self {
            EventKind::Any => true,
            _ => self == EventKind::of_chat(event),
        }
    }

    /// Whether an event matches this kind.
    pub fn matches(self, event: &InvocationEvent) -> (r: bool)
        ensures
            r == match event {
                InvocationEvent::Agent(e) => self is Any || self == agent_event_kind(event_kind(*e)),
                InvocationEvent::Chat(e) => self is Any || self == chat_event_kind(e@),
            },
    {
        match event {
            InvocationEvent::Agent(e) => self.matches_agent(e),
            InvocationEvent::Chat(e) => self.matches_chat(e),
        }
    }
}

/// Agent kinds and chat kinds are apart: an agent-runtime event never has
/// a chat kind and a chat-stream event always has one, so only `Any`
/// matches events of both sources.
pub proof fn lemma_kinds_apart(k: EventKind, a: AgentEventKind, c: ChatStreamEventView)
    ensures
        !is_chat_kind(agent_event_kind(a)),
        is_chat_kind(chat_event_kind(c)),
        (k is Any || k == agent_event_kind(a)) && (k is Any || k == chat_event_kind(c)) ==> k is Any,
        agent_event_kind(a) != EventKind::Any,
{
}

/// Distinct agent-runtime events have distinct kinds, so a kind other than
/// `Any` selects one variant.
pub proof fn lemma_agent_kind_injective(a: AgentEventKind, b: AgentEventKind)
    ensures
        agent_event_kind(a) == agent_event_kind(b) ==> a == b,
{
}

/// The concurrency limit an invocation keeps when asked for `limit`
/// handlers at once: at least one.
pub fn concurrency_limit_hint(limit: usize) -> (r: usize)
    ensures
        r == if limit == 0 { 1 } else { limit },
        r >= 1,
{
    if limit == 0 { 1 } else { limit }
}

// ---------------------------------------------------------------------
// Hook order
// ---------------------------------------------------------------------

/// Whether priorities are in non-decreasing order.
pub open spec fn priorities_sorted(s: Seq<i32>) -> bool {
    forall|a: int, b: int| 0 <= a < b < s.len() ==> #[trigger] s[a] <= #[trigger] s[b]
}

/// The priorities of registered hooks, in dispatch order: lower priority
/// first, and among equal priorities, the earlier registration first.
#[derive(Debug)]
pub struct PriorityOrder {
    priorities: Vec<i32>,
}

impl PriorityOrder {
    /// The priorities in dispatch order.
    pub closed spec fn order(&self) -> Seq<i32> {
        self.priorities@
    }

    /// An empty order.
    pub fn new() -> (r: Self)
        ensures
            r.order() == Seq::<i32>::empty(),
    {
        PriorityOrder { priorities: Vec::new() }
    }

    /// Registers one more priority and returns the place it takes: after
    /// every priority not above it, before every priority above it.
    pub fn insert(&mut self, priority: i32) -> (pos: usize)
        requires
            priorities_sorted(old(self).order()),
        ensures
            pos <= old(self).order().len(),
            final(self).order() == old(self).order().insert(pos as int, priority),
            priorities_sorted(final(self).order()),
            forall|k: int| 0 <= k < pos ==> old(self).order()[k] <= priority,
            forall|k: int| pos <= k < old(self).order().len() ==> priority < old(self).order()[k],
    {
        let ghost s = self.priorities@;
        let mut pos: usize = 0;
        while pos < self.priorities.len() && self.priorities[pos] <= priority
            invariant
                pos <= self.priorities.len(),
                self.priorities@ == s,
                forall|k: int| 0 <= k < pos ==> s[k] <= priority,
            decreases self.priorities.len() - pos,
        {
            pos = pos + 1;
        }
        proof {
            assert forall|k: int| pos <= k < s.len() implies priority < s[k] by {
                assert(priority < s[pos as int]);
                assert(s[pos as int] <= s[k]);
            }
        }
        self.priorities.insert(pos, priority);
        proof {
            let t = self.priorities@;
            assert forall|a: int, b: int| 0 <= a < b < t.len() implies #[trigger] t[a] <= #[trigger] t[b] by {
                if b < pos {
                    assert(t[a] == s[a] && t[b] == s[b]);
                } else if b == pos {
                    assert(t[a] == s[a]);
                } else if a < pos {
                    assert(t[a] == s[a] && t[b] == s[b - 1]);
                } else if a == pos {
                    assert(t[b] == s[b - 1]);
                } else {
                    assert(t[a] == s[a - 1] && t[b] == s[b - 1]);
                }
            }
        }
        pos
    }

    /// The number of registered hooks.
    pub fn len(&self) -> (r: usize)
        ensures
            r == self.order().len(),
    {
        self.priorities.len()
    }

    /// Whether no hook is registered.
    pub fn is_empty(&self) -> (r: bool)
        ensures
            r == (self.order().len() == 0),
    {
        self.priorities.len() == 0
    }
}

impl Default for PriorityOrder {
    fn default() -> (r: Self)
        ensures
            r.order() == Seq::<i32>::empty(),
    {
        PriorityOrder::new()
    }
}

} // verus!
