//! The short-term active window of a conversation: messages are pushed in,
//! and once the window is over its token or message limit, all but the
//! most recent turns are evicted and reported for demotion or compaction.
use vstd::prelude::*;

use crate::message::{clone_messages, Message, MessageView, msgs_view};
use crate::token::{estimate_messages_tokens, messages_tokens};

verus! {

/// Events produced by memory operations, for audit and observability.
pub enum MemoryEvent {
    /// Messages were demoted to long-term storage.
    Demoted { count: usize, session_id: String },
    /// Messages were compacted into a summary.
    Compacted { original_count: usize, summary_length: usize },
    /// Messages were restored from long-term storage.
    Restored { count: usize },
}

/// The plain value of a [`MemoryEvent`].
pub enum MemoryEventView {
    Demoted { count: usize, session_id: Seq<char> },
    Compacted { original_count: usize, summary_length: usize },
    Restored { count: usize },
}

impl View for MemoryEvent {
    type V = MemoryEventView;

    open spec fn view(&self) -> MemoryEventView {
        match self {
            MemoryEvent::Demoted { count, session_id } => MemoryEventView::Demoted {
                count: *count,
                session_id: session_id@,
            },
            MemoryEvent::Compacted { original_count, summary_length } =>
                MemoryEventView::Compacted {
                original_count: *original_count,
                summary_length: *summary_length,
            },
            MemoryEvent::Restored { count } => MemoryEventView::Restored { count: *count },
        }
    }
}

/// The plain values of memory events.
pub open spec fn events_view(v: Seq<MemoryEvent>) -> Seq<MemoryEventView> {
    v.map_values(|e: MemoryEvent| e@)
}

/// The limits and retention rules of an active window.
#[derive(Debug, Clone, Copy, PartialEq, Eq, Structural)]
pub struct WindowPolicy {
    /// Most estimated tokens before the window is trimmed.
    pub max_window_tokens: usize,
    /// Most messages before the window is trimmed.
    pub max_window_messages: usize,
    /// Most recent messages always kept.
    pub keep_tail_turns: usize,
    /// Whether evicted messages are reported for demotion.
    pub demotion_enabled: bool,
    /// Whether evicted messages are reported for compaction.
    pub compaction_enabled: bool,
}

impl Default for WindowPolicy {
    fn default() -> (r: Self)
        ensures
            r == (WindowPolicy {
                max_window_tokens: 100_000,
                max_window_messages: 200,
                keep_tail_turns: 3,
                demotion_enabled: true,
                compaction_enabled: true,
            }),
    {
        WindowPolicy {
            max_window_tokens: 100_000,
            max_window_messages: 200,
            keep_tail_turns: 3,
            demotion_enabled: true,
            compaction_enabled: true,
        }
    }
}

/// Whether a window of messages is over its limits.
pub open spec fn over_limits(ms: Seq<MessageView>, p: WindowPolicy) -> bool {
    messages_tokens(ms) > p.max_window_tokens || ms.len() > p.max_window_messages
}

/// How many messages a trim keeps: the tail turns, or all if fewer.
pub open spec fn kept_count(ms: Seq<MessageView>, p: WindowPolicy) -> nat {
    if p.keep_tail_turns < ms.len() {
        p.keep_tail_turns as nat
    } else {
        ms.len()
    }
}

/// The window after a trim, and what it reports: when over its limits,
/// only the last [`kept_count`] messages stay, and the evicted ones are
/// reported for demotion (when enabled) and for compaction (when enabled
/// and something was evicted); otherwise nothing changes or is reported.
pub open spec fn spec_trim(ms: Seq<MessageView>, p: WindowPolicy) -> (Seq<MessageView>, Seq<
    MemoryEventView,
>) {
    if !over_limits(ms, p) {
        (ms, Seq::empty())
    } else {
        let keep = kept_count(ms, p);
        let evicted = (ms.len() - keep) as usize;
        let demoted: Seq<MemoryEventView> = if p.demotion_enabled {
            seq![MemoryEventView::Demoted { count: evicted, session_id: Seq::empty() }]
        } else {
            Seq::empty()
        };
        let compacted: Seq<MemoryEventView> = if p.compaction_enabled && evicted > 0 {
            seq![MemoryEventView::Compacted { original_count: evicted, summary_length: 0 }]
        } else {
            Seq::empty()
        };
        (ms.skip(ms.len() - keep), demoted + compacted)
    }
}

/// The short-term window of a conversation.
pub struct ActiveWindow {
    messages: Vec<Message>,
    policy: WindowPolicy,
}

impl ActiveWindow {
    /// The messages in the window.
    pub closed spec fn spec_messages(&self) -> Seq<MessageView> {
        msgs_view(self.messages@)
    }

    /// The window's policy.
    pub closed spec fn spec_policy(&self) -> WindowPolicy {
        self.policy
    }

    /// An empty window with the given policy.
    pub fn new(policy: WindowPolicy) -> (r: Self)
        ensures
            r.spec_messages() == Seq::<MessageView>::empty(),
            r.spec_policy() == policy,
    {
        let r = ActiveWindow { messages: Vec::new(), policy };
        assert(r.spec_messages() =~= Seq::<MessageView>::empty());
        r
    }

    /// The messages in the window.
    pub fn messages(&self) -> (r: &[Message])
        ensures
            msgs_view(r@) == self.spec_messages(),
    {
        self.messages.as_slice()
    }

    /// Adds a message, then trims the window if it is over its limits.
    pub fn push(&mut self, msg: Message) -> (r: Vec<MemoryEvent>)
        requires
            messages_tokens(old(self).spec_messages().push(msg@)) <= usize::MAX,
        ensures
            (final(self).spec_messages(), events_view(r@)) == spec_trim(
                old(self).spec_messages().push(msg@),
                old(self).spec_policy(),
            ),
            final(self).spec_policy() == old(self).spec_policy(),
    {
        let ghost before = msgs_view(self.messages@);
        let ghost m = msg@;
        self.messages.push(msg);
        assert(msgs_view(self.messages@) =~= before.push(m));
        self.trim_if_needed()
    }

    /// Trims the window if it is over its limits: see [`spec_trim`].
    pub fn trim_if_needed(&mut self) -> (r: Vec<MemoryEvent>)
        requires
            messages_tokens(old(self).spec_messages()) <= usize::MAX,
        ensures
            (final(self).spec_messages(), events_view(r@)) == spec_trim(
                old(self).spec_messages(),
                old(self).spec_policy(),
            ),
            final(self).spec_policy() == old(self).spec_policy(),
    {
        let ghost ms = msgs_view(self.messages@);
        let token_count = estimate_messages_tokens(self.messages.as_slice());
        let over_token_limit = token_count > self.policy.max_window_tokens;
        let over_message_limit = self.messages.len() > self.policy.max_window_messages;
        if !over_token_limit && !over_message_limit {
            let e: Vec<MemoryEvent> = Vec::new();
            assert(events_view(e@) =~= Seq::<MemoryEventView>::empty());
            return e;
        }
        let n = self.messages.len();
        let keep_tail = if self.policy.keep_tail_turns < n {
            self.policy.keep_tail_turns
        } else {
            n
        };
        let mut tail = self.messages.split_off(n - keep_tail);
        std::mem::swap(&mut self.messages, &mut tail);
        assert(msgs_view(self.messages@) =~= ms.skip(n - keep_tail));
        let count = tail.len();
        let mut events: Vec<MemoryEvent> = Vec::new();
        if self.policy.demotion_enabled {
            events.push(MemoryEvent::Demoted { count, session_id: String::new() });
        }
        if self.policy.compaction_enabled && count > 0 {
            events.push(MemoryEvent::Compacted { original_count: count, summary_length: 0 });
        }
        proof {
            let demoted: Seq<MemoryEventView> = if self.policy.demotion_enabled {
                seq![MemoryEventView::Demoted { count: count, session_id: Seq::empty() }]
            } else {
                Seq::empty()
            };
            let compacted: Seq<MemoryEventView> = if self.policy.compaction_enabled && count > 0 {
                seq![MemoryEventView::Compacted { original_count: count, summary_length: 0 }]
            } else {
                Seq::empty()
            };
            assert(events_view(events@) =~= demoted + compacted);
        }
        events
    }
}

/// A trim keeps at most the tail turns (or everything when under the
/// limits), keeps the most recent messages in order, and what it keeps and
/// what it evicts together are the whole window.
pub proof fn lemma_trim_keeps_recent(ms: Seq<MessageView>, p: WindowPolicy)
    ensures
        ({
            let kept = spec_trim(ms, p).0;
            &&& over_limits(ms, p) ==> kept.len() <= p.keep_tail_turns
            &&& kept.len() <= ms.len()
            &&& kept == ms.skip(ms.len() - kept.len())
        }),
{
    if !over_limits(ms, p) {
        assert(ms.skip(0) =~= ms);
    }
}

// ---------------------------------------------------------------------
// In-memory conversation log
// ---------------------------------------------------------------------

/// One session's messages.
pub type SessionLog = (String, Vec<Message>);

/// The messages of each session of a list of session logs.
pub open spec fn log_table(s: Seq<SessionLog>) -> Map<Seq<char>, Seq<MessageView>> {
    Map::new(
        |k: Seq<char>| exists|j: int| 0 <= j < s.len() && (#[trigger] s[j]).0@ == k,
        |k: Seq<char>| msgs_view(s[choose|j: int| 0 <= j < s.len() && (#[trigger] s[j]).0@ == k].1@),
    )
}

/// Whether no session occurs twice.
pub open spec fn distinct_sessions(s: Seq<SessionLog>) -> bool {
    forall|a: int, b: int| 0 <= a < b < s.len() ==> (#[trigger] s[a]).0@ != (#[trigger] s[b]).0@
}

/// The messages of a session in a table, empty when absent.
pub open spec fn session_messages(m: Map<Seq<char>, Seq<MessageView>>, k: Seq<char>) -> Seq<MessageView> {
    if m.contains_key(k) {
        m[k]
    } else {
        Seq::empty()
    }
}

proof fn lemma_log_at(s: Seq<SessionLog>, j: int)
    requires
        distinct_sessions(s),
        0 <= j < s.len(),
    ensures
        log_table(s).contains_key(s[j].0@),
        log_table(s)[s[j].0@] == msgs_view(s[j].1@),
{
    let k = s[j].0@;
    assert(exists|x: int| 0 <= x < s.len() && (#[trigger] s[x]).0@ == k);
    let x = choose|x: int| 0 <= x < s.len() && (#[trigger] s[x]).0@ == k;
    if x != j {
        if x < j {
            assert(s[x].0@ != s[j].0@);
        } else {
            assert(s[j].0@ != s[x].0@);
        }
    }
}

proof fn lemma_log_set(s: Seq<SessionLog>, p: int, x: SessionLog)
    requires
        distinct_sessions(s),
        0 <= p < s.len(),
        s[p].0@ == x.0@,
    ensures
        distinct_sessions(s.update(p, x)),
        log_table(s.update(p, x)) == log_table(s).insert(x.0@, msgs_view(x.1@)),
{
    let t = s.update(p, x);
    assert forall|a: int, b: int| 0 <= a < b < t.len() implies (#[trigger] t[a]).0@ != (
    #[trigger] t[b]).0@ by {
        assert(t[a].0@ == s[a].0@);
        assert(t[b].0@ == s[b].0@);
    }
    let m = log_table(s).insert(x.0@, msgs_view(x.1@));
    assert forall|k: Seq<char>| #[trigger] log_table(t).contains_key(k) <==> m.contains_key(k) by {
        if log_table(t).contains_key(k) {
            let j = choose|j: int| 0 <= j < t.len() && (#[trigger] t[j]).0@ == k;
            assert(s[j].0@ == k);
        }
        if log_table(s).contains_key(k) {
            let j = choose|j: int| 0 <= j < s.len() && (#[trigger] s[j]).0@ == k;
            assert(t[j].0@ == k);
        }
        if k == x.0@ {
            assert(t[p].0@ == k);
        }
    }
    assert forall|k: Seq<char>| #[trigger] log_table(t).contains_key(k) implies log_table(t)[k]
        == m[k] by {
        let j = choose|j: int| 0 <= j < t.len() && (#[trigger] t[j]).0@ == k;
        lemma_log_at(t, j);
        if j != p {
            assert(s[j] == t[j]);
            lemma_log_at(s, j);
        }
    }
    assert(log_table(t) =~= m);
}

proof fn lemma_log_push(s: Seq<SessionLog>, x: SessionLog)
    requires
        distinct_sessions(s),
        !log_table(s).contains_key(x.0@),
    ensures
        distinct_sessions(s.push(x)),
        log_table(s.push(x)) == log_table(s).insert(x.0@, msgs_view(x.1@)),
{
    let t = s.push(x);
    assert forall|a: int, b: int| 0 <= a < b < t.len() implies (#[trigger] t[a]).0@ != (
    #[trigger] t[b]).0@ by {
        assert(t[a] == s[a]);
        if b < s.len() {
            assert(t[b] == s[b]);
        } else {
            if t[a].0@ == x.0@ {
                assert(log_table(s).contains_key(x.0@));
            }
        }
    }
    let m = log_table(s).insert(x.0@, msgs_view(x.1@));
    assert forall|k: Seq<char>| #[trigger] log_table(t).contains_key(k) <==> m.contains_key(k) by {
        if log_table(t).contains_key(k) {
            let j = choose|j: int| 0 <= j < t.len() && (#[trigger] t[j]).0@ == k;
            if j < s.len() {
                assert(s[j] == t[j]);
            }
        }
        if log_table(s).contains_key(k) {
            let j = choose|j: int| 0 <= j < s.len() && (#[trigger] s[j]).0@ == k;
            assert(t[j] == s[j]);
        }
        if k == x.0@ {
            assert(t[s.len() as int].0@ == k);
        }
    }
    assert forall|k: Seq<char>| #[trigger] log_table(t).contains_key(k) implies log_table(t)[k]
        == m[k] by {
        let j = choose|j: int| 0 <= j < t.len() && (#[trigger] t[j]).0@ == k;
        lemma_log_at(t, j);
        if j < s.len() {
            assert(s[j] == t[j]);
            lemma_log_at(s, j);
        }
    }
    assert(log_table(t) =~= m);
}

proof fn lemma_log_remove(s: Seq<SessionLog>, p: int)
    requires
        distinct_sessions(s),
        0 <= p < s.len(),
    ensures
        distinct_sessions(s.remove(p)),
        log_table(s.remove(p)) == log_table(s).remove(s[p].0@),
{
    let t = s.remove(p);
    let k0 = s[p].0@;
    assert forall|a: int, b: int| 0 <= a < b < t.len() implies (#[trigger] t[a]).0@ != (
    #[trigger] t[b]).0@ by {
        let sa = if a < p { a } else { a + 1 };
        let sb = if b < p { b } else { b + 1 };
        assert(t[a] == s[sa]);
        assert(t[b] == s[sb]);
    }
    let m = log_table(s).remove(k0);
    assert forall|k: Seq<char>| #[trigger] log_table(t).contains_key(k) <==> m.contains_key(k) by {
        if log_table(t).contains_key(k) {
            let j = choose|j: int| 0 <= j < t.len() && (#[trigger] t[j]).0@ == k;
            let sj = if j < p { j } else { j + 1 };
            assert(t[j] == s[sj]);
            if k == k0 {
                if sj < p {
                    assert(s[sj].0@ != s[p].0@);
                } else {
                    assert(s[p].0@ != s[sj].0@);
                }
            }
        }
        if m.contains_key(k) {
            let j = choose|j: int| 0 <= j < s.len() && (#[trigger] s[j]).0@ == k;
            assert(j != p);
            let tj = if j < p { j } else { j - 1 };
            assert(t[tj] == s[j]);
        }
    }
    assert forall|k: Seq<char>| #[trigger] log_table(t).contains_key(k) implies log_table(t)[k]
        == m[k] by {
        let j = choose|j: int| 0 <= j < t.len() && (#[trigger] t[j]).0@ == k;
        let sj = if j < p { j } else { j + 1 };
        assert(t[j] == s[sj]);
        lemma_log_at(t, j);
        lemma_log_at(s, sj);
    }
    assert(log_table(t) =~= m);
}

/// Conversation messages of many sessions, kept in memory.
#[derive(Debug)]
pub struct ConversationLog {
    sessions: Vec<SessionLog>,
}

impl ConversationLog {
    /// The messages of each session.
    pub closed spec fn table(&self) -> Map<Seq<char>, Seq<MessageView>> {
        log_table(self.sessions@)
    }

    /// Well-formed: no session is listed twice.
    pub closed spec fn wf(&self) -> bool {
        distinct_sessions(self.sessions@)
    }

    /// An empty log.
    pub fn new() -> (r: Self)
        ensures
            r.wf(),
            r.table() == Map::<Seq<char>, Seq<MessageView>>::empty(),
    {
        let r = ConversationLog { sessions: Vec::new() };
        assert(r.table() =~= Map::<Seq<char>, Seq<MessageView>>::empty());
        r
    }

    fn position(&self, session_id: &str) -> (r: Option<usize>)
        requires
            self.wf(),
        ensures
            match r {
                Some(p) => p < self.sessions@.len() && self.sessions@[p as int].0@ == session_id@,
                None => !self.table().contains_key(session_id@),
            },
    {
        let owned = session_id.to_owned();
        let mut p: usize = 0;
        while p < self.sessions.len()
            invariant
                p <= self.sessions.len(),
                owned@ == session_id@,
                forall|j: int| 0 <= j < p ==> (#[trigger] self.sessions@[j]).0@ != session_id@,
            decreases self.sessions.len() - p,
        {
            if self.sessions[p].0 == owned {
                return Some(p);
            }
            p = p + 1;
        }
        None
    }

    /// The messages of a session, oldest first; empty for an unknown
    /// session.
    pub fn load(&self, session_id: &str) -> (r: Vec<Message>)
        requires
            self.wf(),
        ensures
            msgs_view(r@) == session_messages(self.table(), session_id@),
    {
        match self.position(session_id) {
            Some(p) => {
                proof {
                    lemma_log_at(self.sessions@, p as int);
                }
                clone_messages(&self.sessions[p].1)
            },
            None => {
                let r: Vec<Message> = Vec::new();
                assert(msgs_view(r@) =~= Seq::<MessageView>::empty());
                r
            },
        }
    }

    /// Appends messages to a session, in order.
    pub fn append(&mut self, session_id: &str, messages: Vec<Message>)
        requires
            old(self).wf(),
        ensures
            final(self).wf(),
            final(self).table() == old(self).table().insert(
                session_id@,
                session_messages(old(self).table(), session_id@) + msgs_view(messages@),
            ),
    {
        let ghost s = self.sessions@;
        let mut messages = messages;
        let ghost added = msgs_view(messages@);
        match self.position(session_id) {
            Some(p) => {
                proof {
                    lemma_log_at(s, p as int);
                }
                let mut cur = clone_messages(&self.sessions[p].1);
                let ghost before = msgs_view(cur@);
                cur.append(&mut messages);
                assert(msgs_view(cur@) =~= before + added);
                let entry = (session_id.to_owned(), cur);
                self.sessions.set(p, entry);
                proof {
                    lemma_log_set(s, p as int, entry);
                }
            },
            None => {
                let entry = (session_id.to_owned(), messages);
                self.sessions.push(entry);
                proof {
                    assert(Seq::<MessageView>::empty() + added =~= added);
                    lemma_log_push(s, entry);
                }
            },
        }
    }

    /// Forgets a session's messages.
    pub fn clear(&mut self, session_id: &str)
        requires
            old(self).wf(),
        ensures
            final(self).wf(),
            final(self).table() == old(self).table().remove(session_id@),
    {
        let ghost s = self.sessions@;
        match self.position(session_id) {
            Some(p) => {
                self.sessions.remove(p);
                proof {
                    lemma_log_remove(s, p as int);
                }
            },
            None => {
                assert(log_table(s).remove(session_id@) =~= log_table(s));
            },
        }
    }
}

impl Default for ConversationLog {
    fn default() -> (r: Self)
        ensures
            r.wf(),
            r.table() == Map::<Seq<char>, Seq<MessageView>>::empty(),
    {
        ConversationLog::new()
    }
}

/// What a load gives back: after appending to a session, loading it gives
/// its earlier messages followed by the appended ones; other sessions are
/// unaffected; after clearing, a session loads as empty.
pub proof fn lemma_load_after_append(
    m: Map<Seq<char>, Seq<MessageView>>,
    k: Seq<char>,
    added: Seq<MessageView>,
    other: Seq<char>,
)
    requires
        other != k,
    ensures
        session_messages(m.insert(k, session_messages(m, k) + added), k) == session_messages(m, k)
            + added,
        session_messages(m.insert(k, session_messages(m, k) + added), other) == session_messages(
            m,
            other,
        ),
        session_messages(m.remove(k), k) == Seq::<MessageView>::empty(),
        session_messages(m.remove(k), other) == session_messages(m, other),
{
}

} // verus!
