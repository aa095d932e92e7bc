//! Run-level context pieces: identity of an invocation and the token
//! budget of a run.

use vstd::prelude::*;
use vstd::string::*;

use crate::event::{
    delta_table, distinct_keys, lemma_delta_table_absent, lemma_delta_table_at,
    lemma_delta_table_remove, set_entry,
};
use crate::health::{json_quote, json_quoted};
use crate::run::RunState;

verus! {

broadcast use vstd::string::group_string_axioms;

/// Application-level identity of an invocation.
#[derive(Debug, Clone)]
pub struct AppContext {
    /// Unique invocation identifier.
    pub invocation_id: String,
    /// Session identifier.
    pub session_id: String,
    /// Authenticated user identifier.
    pub user_id: String,
    /// Application name.
    pub app_name: String,
}

/// Read-only identity available to every participant.
pub trait ReadonlyContext {
    /// The invocation identifier.
    fn invocation_id(&self) -> &str;

    /// The session identifier.
    fn session_id(&self) -> &str;

    /// The user identifier.
    fn user_id(&self) -> &str;

    /// The application name.
    fn app_name(&self) -> &str;
}

impl ReadonlyContext for AppContext {
    fn invocation_id(&self) -> (r: &str)
        ensures
            r@ == self.invocation_id@,
    {
        self.invocation_id.as_str()
    }

    fn session_id(&self) -> (r: &str)
        ensures
            r@ == self.session_id@,
    {
        self.session_id.as_str()
    }

    fn user_id(&self) -> (r: &str)
        ensures
            r@ == self.user_id@,
    {
        self.user_id.as_str()
    }

    fn app_name(&self) -> (r: &str)
        ensures
            r@ == self.app_name@,
    {
        self.app_name.as_str()
    }
}

/// Token budget of a single run.
#[derive(Debug, Clone, Copy)]
pub struct RunBudget {
    max_tokens: Option<usize>,
    used_tokens: usize,
}

impl RunBudget {
    /// The maximum, if any.
    pub closed spec fn spec_max(&self) -> Option<usize> {
        self.max_tokens
    }

    /// Tokens consumed so far.
    pub closed spec fn spec_used(&self) -> usize {
        self.used_tokens
    }

    /// A budget with an optional maximum and nothing consumed.
    pub fn new(max_tokens: Option<usize>) -> (r: Self)
        ensures
            r.spec_max() == max_tokens,
            r.spec_used() == 0,
    {
        RunBudget { max_tokens, used_tokens: 0 }
    }

    /// Records token usage.
    pub fn consume(&mut self, tokens: usize)
        requires
            old(self).spec_used() + tokens <= usize::MAX,
        ensures
            final(self).spec_used() == old(self).spec_used() + tokens,
            final(self).spec_max() == old(self).spec_max(),
    {
        self.used_tokens = self.used_tokens + tokens;
    }

    /// Tokens left under the maximum (zero when exceeded); `None` without
    /// a maximum.
    pub fn remaining(&self) -> (r: Option<usize>)
        ensures
            match self.spec_max() {
                Some(m) => r == Some(
                    (if m >= self.spec_used() {
                        m - self.spec_used()
                    } else {
                        0
                    }) as usize,
                ),
                None => r is None,
            },
    {
        match self.max_tokens {
            Some(max) => Some(max.saturating_sub(self.used_tokens)),
            None => None,
        }
    }

    /// Tokens consumed so far.
    pub fn used(&self) -> (r: usize)
        ensures
            r == self.spec_used(),
    {
        self.used_tokens
    }
}

/// Consuming `a` then `b` tokens leaves the same budget as consuming
/// `a + b` at once, and what remains never grows as tokens are consumed.
pub proof fn lemma_budget_consumption(max: usize, used: usize, a: usize, b: usize)
    requires
        used + a + b <= usize::MAX,
    ensures
        (used + a) + b == used + (a + b),
        (if max >= used + a { max - (used + a) } else { 0 }) <= (if max >= used { max - used } else { 0 }),
{
}

/// Key-value session state: keys to JSON values (as JSON text).
#[derive(Debug)]
pub struct SessionState {
    entries: Vec<(String, String)>,
}

impl SessionState {
    /// The state's values by key.
    pub closed spec fn table(&self) -> Map<Seq<char>, Seq<char>> {
        delta_table(self.entries@)
    }

    /// Well-formed: no key is stored twice.
    pub closed spec fn wf(&self) -> bool {
        distinct_keys(self.entries@)
    }

    /// An empty state.
    pub fn new() -> (r: Self)
        ensures
            r.wf(),
            r.table() == Map::<Seq<char>, Seq<char>>::empty(),
    {
        let r = SessionState { entries: Vec::new() };
        assert(r.table() =~= Map::<Seq<char>, Seq<char>>::empty());
        r
    }

    /// The position of a key, if stored.
    fn position(&self, key: &str) -> (r: Option<usize>)
        requires
            self.wf(),
        ensures
            match r {
                Some(p) => p < self.entries@.len() && self.entries@[p as int].0@ == key@,
                None => !self.table().contains_key(key@),
            },
    {
        let owned = key.to_owned();
        let mut p: usize = 0;
        while p < self.entries.len()
            invariant
                p <= self.entries.len(),
                owned@ == key@,
                forall|j: int| 0 <= j < p ==> (#[trigger] self.entries@[j]).0@ != key@,
            decreases self.entries.len() - p,
        {
            if self.entries[p].0 == owned {
                return Some(p);
            }
            p = p + 1;
        }
        proof {
            lemma_delta_table_absent(self.entries@, key@);
        }
        None
    }

    /// Stores a value, replacing any earlier one under the key.
    pub fn set(&mut self, key: String, value: String)
        requires
            old(self).wf(),
        ensures
            final(self).wf(),
            final(self).table() == old(self).table().insert(key@, value@),
    {
        set_entry(&mut self.entries, &key, &value);
    }

    /// The value under a key.
    pub fn get(&self, key: &str) -> (r: Option<&String>)
        requires
            self.wf(),
        ensures
            match r {
                Some(v) => self.table().contains_key(key@) && v@ == self.table()[key@],
                None => !self.table().contains_key(key@),
            },
    {
        match self.position(key) {
            Some(p) => {
                proof {
                    lemma_delta_table_at(self.entries@, p as int);
                }
                Some(&self.entries[p].1)
            },
            None => None,
        }
    }

    /// Removes a key and returns its value.
    pub fn remove(&mut self, key: &str) -> (r: Option<String>)
        requires
            old(self).wf(),
        ensures
            final(self).wf(),
            final(self).table() == old(self).table().remove(key@),
            match r {
                Some(v) => old(self).table().contains_key(key@) && v@ == old(self).table()[key@],
                None => !old(self).table().contains_key(key@),
            },
    {
        let ghost s = self.entries@;
        match self.position(key) {
            Some(p) => {
                proof {
                    lemma_delta_table_at(s, p as int);
                    lemma_delta_table_remove(s, p as int);
                }
                let (_, v) = self.entries.remove(p);
                Some(v)
            },
            None => {
                assert(delta_table(s).remove(key@) =~= delta_table(s));
                None
            },
        }
    }

    /// All entries (key, JSON value), each key once.
    pub fn all(&self) -> (r: &[(String, String)])
        requires
            self.wf(),
        ensures
            distinct_keys(r@),
            delta_table(r@) == self.table(),
    {
        self.entries.as_slice()
    }
}

impl Default for SessionState {
    fn default() -> (r: Self)
        ensures
            r.wf(),
            r.table() == Map::<Seq<char>, Seq<char>>::empty(),
    {
        SessionState::new()
    }
}

/// A point-in-time view of a run, for hooks.
#[derive(Debug)]
pub struct RunSnapshot {
    /// Run state.
    pub state: RunState,
    /// Run identifier (the 128-bit value of its UUID).
    pub run_id: u128,
    /// Session identifier.
    pub session_id: String,
    /// Current iteration.
    pub iteration: usize,
    /// Tokens used so far.
    pub tokens_used: usize,
}

/// What a hook may read of a run.
pub trait HookContext: ReadonlyContext {
    /// The current run state.
    fn current_state(&self) -> &RunState;

    /// A snapshot of the run.
    fn snapshot(&self) -> RunSnapshot;
}

/// Hook context of a run.
#[derive(Debug)]
pub struct HookContextImpl {
    /// The application context for identity.
    pub app: AppContext,
    /// The current run state.
    pub state: RunState,
    /// The run identifier.
    pub run_id: u128,
    /// Current iteration count.
    pub iteration: usize,
    /// Current token usage.
    pub tokens_used: usize,
}

impl ReadonlyContext for HookContextImpl {
    fn invocation_id(&self) -> (r: &str)
        ensures
            r@ == self.app.invocation_id@,
    {
        self.app.invocation_id.as_str()
    }

    fn session_id(&self) -> (r: &str)
        ensures
            r@ == self.app.session_id@,
    {
        self.app.session_id.as_str()
    }

    fn user_id(&self) -> (r: &str)
        ensures
            r@ == self.app.user_id@,
    {
        self.app.user_id.as_str()
    }

    fn app_name(&self) -> (r: &str)
        ensures
            r@ == self.app.app_name@,
    {
        self.app.app_name.as_str()
    }
}

impl HookContext for HookContextImpl {
    fn current_state(&self) -> (r: &RunState)
        ensures
            *r == self.state,
    {
        &self.state
    }

    fn snapshot(&self) -> (r: RunSnapshot)
        ensures
            r.state == self.state,
            r.run_id == self.run_id,
            r.session_id@ == self.app.session_id@,
            r.iteration == self.iteration,
            r.tokens_used == self.tokens_used,
    {
        RunSnapshot {
            state: self.state,
            run_id: self.run_id,
            session_id: self.app.session_id.clone(),
            iteration: self.iteration,
            tokens_used: self.tokens_used,
        }
    }
}

/// The JSON text of a tool progress event: an object with the call id,
/// the data, the status, the tool name and the type `tool_progress`, keys
/// in sorted order as serde_json prints them.
pub open spec fn progress_json(
    call_id: Seq<char>,
    tool_name: Seq<char>,
    status: Seq<char>,
    data: Seq<char>,
) -> Seq<char> {
    "{\"call_id\":"@ + json_quoted(call_id) + ",\"data\":"@ + data + ",\"status\":"@ + json_quoted(
        status,
    ) + ",\"tool_name\":"@ + json_quoted(tool_name) + ",\"type\":\"tool_progress\"}"@
}

/// Builds the progress event a tool emits while it runs; the data is given
/// as compact JSON text, as serde_json prints a value.
pub fn progress_event(call_id: &str, tool_name: &str, status: &str, data: &str) -> (r: String)
    ensures
        r@ == progress_json(call_id@, tool_name@, status@, data@),
{
    proof {
        reveal_strlit("{\"call_id\":");
        reveal_strlit(",\"data\":");
        reveal_strlit(",\"status\":");
        reveal_strlit(",\"tool_name\":");
        reveal_strlit(",\"type\":\"tool_progress\"}");
    }
    let mut s = "{\"call_id\":".to_owned();
    s.append(json_quote(call_id).as_str());
    s.append(",\"data\":");
    s.append(data);
    s.append(",\"status\":");
    s.append(json_quote(status).as_str());
    s.append(",\"tool_name\":");
    s.append(json_quote(tool_name).as_str());
    s.append(",\"type\":\"tool_progress\"}");
    s
}

} // verus!
