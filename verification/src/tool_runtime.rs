//! The decisions of a tool batch: which calls may run side by side, how
//! their outcomes come back in call order, and what a failed call turns
//! into under the runtime's continue-on-failure policy.
//!
//! Running the tools themselves (timeouts, the semaphore, the registry)
//! is left to the caller; it hands the results of that work to these
//! functions.
use vstd::prelude::*;

use crate::message::{text_part, Message, MessageView};
use crate::tool_types::ToolCall;

verus! {

// ---------------------------------------------------------------------
// Grouping
// ---------------------------------------------------------------------

/// The positions `i` of `s` with `s[i] == b`, in increasing order.
pub open spec fn indices_where(s: Seq<bool>, b: bool) -> Seq<usize>
    decreases s.len(),
{
    if s.len() == 0 {
        Seq::empty()
    } else {
        let rest = indices_where(s.drop_last(), b);
        if s.last() == b {
            rest.push((s.len() - 1) as usize)
        } else {
            rest
        }
    }
}

/// Splits a batch by the concurrency safety of each call's tool: the
/// positions of the calls that may run side by side, then those of the
/// calls that must run one at a time, each in call order.
pub fn partition_by_safety(safe: &[bool]) -> (r: (Vec<usize>, Vec<usize>))
    ensures
        r.0@ == indices_where(safe@, true),
        r.1@ == indices_where(safe@, false),
{
    let mut concurrent: Vec<usize> = Vec::new();
    let mut exclusive: Vec<usize> = Vec::new();
    let mut i: usize = 0;
    while i < safe.len()
        invariant
            i <= safe.len(),
            concurrent@ == indices_where(safe@.take(i as int), true),
            exclusive@ == indices_where(safe@.take(i as int), false),
        decreases safe.len() - i,
    {
        assert(safe@.take(i + 1).drop_last() =~= safe@.take(i as int));
        if safe[i] {
            concurrent.push(i);
        } else {
            exclusive.push(i);
        }
        i = i + 1;
    }
    assert(safe@.take(safe.len() as int) =~= safe@);
    (concurrent, exclusive)
}

/// The positions gathered for one value of `b`: each names a call of that
/// value, they increase, and every call of that value is among them.
proof fn lemma_indices_where(s: Seq<bool>, b: bool)
    requires
        s.len() <= usize::MAX + 1,
    ensures
        forall|k: int|
            0 <= k < indices_where(s, b).len() ==> (#[trigger] indices_where(s, b)[k]) < s.len()
                && s[indices_where(s, b)[k] as int] == b,
        forall|j: int, k: int|
            0 <= j < k < indices_where(s, b).len() ==> #[trigger] indices_where(s, b)[j]
                < #[trigger] indices_where(s, b)[k],
        forall|i: int| 0 <= i < s.len() && s[i] == b ==> indices_where(s, b).contains(i as usize),
        indices_where(s, b).len() <= s.len(),
    decreases s.len(),
{
    if s.len() > 0 {
        let p = s.drop_last();
        lemma_indices_where(p, b);
        let rest = indices_where(p, b);
        let r = indices_where(s, b);
        assert forall|i: int| 0 <= i < s.len() && s[i] == b implies r.contains(i as usize) by {
            if i < p.len() {
                assert(p[i] == s[i]);
                let k = choose|k: int| 0 <= k < rest.len() && rest[k] == i as usize;
                assert(r[k] == rest[k]);
            } else {
                assert(r[r.len() - 1] == (s.len() - 1) as usize);
            }
        }
        assert forall|k: int| 0 <= k < r.len() implies (#[trigger] r[k]) < s.len() && s[r[k] as int] == b by {
            if k < rest.len() {
                assert(r[k] == rest[k]);
                assert(s[rest[k] as int] == p[rest[k] as int]);
            }
        }
    }
}

/// Every call of a batch lands in exactly one group: each group lists
/// calls of its kind in call order, and together they hold every call
/// once.
pub proof fn lemma_partition_by_safety(safe: Seq<bool>)
    requires
        safe.len() <= usize::MAX,
    ensures
        forall|i: int|
            0 <= i < safe.len() ==> (indices_where(safe, true).contains(i as usize)
                <==> safe[i]) && (indices_where(safe, false).contains(i as usize) <==> !safe[i]),
        forall|j: int, k: int|
            0 <= j < k < indices_where(safe, true).len() ==> #[trigger] indices_where(safe, true)[j]
                < #[trigger] indices_where(safe, true)[k],
        forall|j: int, k: int|
            0 <= j < k < indices_where(safe, false).len() ==> #[trigger] indices_where(
                safe,
                false,
            )[j] < #[trigger] indices_where(safe, false)[k],
        indices_where(safe, true).len() + indices_where(safe, false).len() == safe.len(),
    decreases safe.len(),
{
    lemma_indices_where(safe, true);
    lemma_indices_where(safe, false);
    if safe.len() > 0 {
        lemma_partition_by_safety(safe.drop_last());
    }
}

// ---------------------------------------------------------------------
// Outcomes in call order
// ---------------------------------------------------------------------

/// One slot per call of a batch, filled as outcomes arrive in any order
/// and read back in call order.
#[derive(Debug)]
pub struct CallOrderResults<T> {
    slots: Vec<Option<T>>,
}

impl<T> CallOrderResults<T> {
    /// The slots, one per call.
    pub closed spec fn slots(&self) -> Seq<Option<T>> {
        self.slots@
    }

    /// Whether every slot holds an outcome.
    pub open spec fn complete(&self) -> bool {
        forall|i: int| 0 <= i < self.slots().len() ==> #[trigger] self.slots()[i] is Some
    }

    /// Empty slots for a batch of `n` calls.
    pub fn new(n: usize) -> (r: Self)
        ensures
            r.slots().len() == n,
            forall|i: int| 0 <= i < n ==> #[trigger] r.slots()[i] is None,
    {
        let mut slots: Vec<Option<T>> = Vec::new();
        let mut i: usize = 0;
        while i < n
            invariant
                i <= n,
                slots@.len() == i,
                forall|k: int| 0 <= k < i ==> #[trigger] slots@[k] is None,
            decreases n - i,
        {
            slots.push(None);
            i = i + 1;
        }
        CallOrderResults { slots }
    }

    /// The number of calls.
    pub fn len(&self) -> (r: usize)
        ensures
            r == self.slots().len(),
    {
        self.slots.len()
    }

    /// Records the outcome of the call at `index`.
    pub fn place(&mut self, index: usize, outcome: T)
        requires
            index < old(self).slots().len(),
        ensures
            final(self).slots() == old(self).slots().update(index as int, Some(outcome)),
    {
        self.slots.set(index, Some(outcome));
    }

    /// Whether every call has its outcome.
    pub fn is_complete(&self) -> (r: bool)
        ensures
            r == self.complete(),
    {
        let mut i: usize = 0;
        while i < self.slots.len()
            invariant
                i <= self.slots@.len(),
                forall|k: int| 0 <= k < i ==> #[trigger] self.slots@[k] is Some,
            decreases self.slots@.len() - i,
        {
            if self.slots[i].is_none() {
                return false;
            }
            i = i + 1;
        }
        true
    }

    /// The outcomes in call order: the `i`-th is the one placed for the
    /// `i`-th call.
    pub fn into_ordered(self) -> (r: Vec<T>)
        requires
            self.complete(),
        ensures
            r@.len() == self.slots().len(),
            forall|i: int| 0 <= i < r@.len() ==> self.slots()[i] == Some(#[trigger] r@[i]),
    {
        let ghost s = self.slots@;
        let mut slots = self.slots;
        let mut reversed: Vec<T> = Vec::new();
        while slots.len() > 0
            invariant
                slots@ == s.take(slots@.len() as int),
                slots@.len() + reversed@.len() == s.len(),
                forall|k: int| 0 <= k < s.len() ==> #[trigger] s[k] is Some,
                forall|k: int|
                    0 <= k < reversed@.len() ==> s[s.len() - 1 - k] == Some(#[trigger] reversed@[k]),
            decreases slots@.len(),
        {
            let last = slots.pop();
            match last {
                Some(Some(v)) => {
                    reversed.push(v);
                },
                _ => {
                    assert(s[slots@.len() as int] is Some);
                },
            }
            assert(slots@ =~= s.take(slots@.len() as int));
        }
        let mut out: Vec<T> = Vec::new();
        while reversed.len() > 0
            invariant
                out@.len() + reversed@.len() == s.len(),
                forall|k: int|
                    0 <= k < reversed@.len() ==> s[s.len() - 1 - k] == Some(#[trigger] reversed@[k]),
                forall|k: int| 0 <= k < out@.len() ==> s[k] == Some(#[trigger] out@[k]),
            decreases reversed@.len(),
        {
            let v = reversed.pop().unwrap();
            out.push(v);
        }
        out
    }
}

// ---------------------------------------------------------------------
// Failed calls
// ---------------------------------------------------------------------

/// Why a tool call did not produce an output.
#[derive(Debug)]
pub enum ToolFailure {
    /// No tool of that name is registered.
    NotFound,
    /// The arguments do not satisfy the tool's schema; `message` is the
    /// schema validator's report.
    InvalidArguments { message: String },
    /// The tool ran and reported an error.
    Failed { message: String },
    /// The tool did not finish in time; `after` renders the time limit.
    TimedOut { after: String },
}

/// What stops a batch when failures may not be reported back to the model.
#[derive(Debug)]
pub enum ToolAbort {
    /// No tool of that name is registered.
    NotFound { name: String },
    /// The arguments do not satisfy the tool's schema.
    InvalidArguments { name: String, message: String },
    /// The tool reported an error.
    Failed { message: String },
    /// The tool did not finish in time.
    Timeout { tool: String },
}

/// The error text of a failed call of the tool `name`.
pub open spec fn failure_text(failure: ToolFailure, name: Seq<char>) -> Seq<char> {
    match failure {
        ToolFailure::NotFound => "tool not found: "@ + name,
        ToolFailure::InvalidArguments { message } => message@,
        ToolFailure::Failed { message } => message@,
        ToolFailure::TimedOut { after } => "tool execution timeout after "@ + after@,
    }
}

/// The text of the tool message that reports an error to the model.
pub open spec fn error_report(text: Seq<char>) -> Seq<char> {
    "{\"error\":\""@ + text + "\"}"@
}

/// What stops the batch for a failure, when failures are not reported.
pub open spec fn spec_abort(failure: ToolFailure, name: Seq<char>) -> ToolAbortView {
    match failure {
        ToolFailure::NotFound => ToolAbortView::NotFound { name },
        ToolFailure::InvalidArguments { message } => ToolAbortView::InvalidArguments {
            name,
            message: message@,
        },
        ToolFailure::Failed { message } => ToolAbortView::Failed { message: message@ },
        ToolFailure::TimedOut { .. } => ToolAbortView::Timeout { tool: name },
    }
}

/// Abstract value of a [`ToolAbort`].
pub enum ToolAbortView {
    NotFound { name: Seq<char> },
    InvalidArguments { name: Seq<char>, message: Seq<char> },
    Failed { message: Seq<char> },
    Timeout { tool: Seq<char> },
}

impl View for ToolAbort {
    type V = ToolAbortView;

    open spec fn view(&self) -> ToolAbortView {
        match self {
            ToolAbort::NotFound { name } => ToolAbortView::NotFound { name: name@ },
            ToolAbort::InvalidArguments { name, message } => ToolAbortView::InvalidArguments {
                name: name@,
                message: message@,
            },
            ToolAbort::Failed { message } => ToolAbortView::Failed { message: message@ },
            ToolAbort::Timeout { tool } => ToolAbortView::Timeout { tool: tool@ },
        }
    }
}

/// What a failed call comes to: with `continue_on_failure`, a tool message
/// answering the call with the error as JSON, so the batch goes on;
/// without it, the error that stops the batch.
pub fn settle_failure(call: &ToolCall, failure: ToolFailure, continue_on_failure: bool) -> (r:
    Result<Message, ToolAbort>)
    ensures
        continue_on_failure ==> (r matches Ok(m) && m@ == (MessageView::Tool {
            tool_call_id: call.id@,
            name: call.name@,
            content: seq![text_part(error_report(failure_text(failure, call.name@)))],
        })),
        !continue_on_failure ==> (r matches Err(e) && e@ == spec_abort(failure, call.name@)),
{
    if !continue_on_failure {
        let abort = match failure {
            ToolFailure::NotFound => ToolAbort::NotFound { name: call.name.clone() },
            ToolFailure::InvalidArguments { message } => ToolAbort::InvalidArguments {
                name: call.name.clone(),
                message,
            },
            ToolFailure::Failed { message } => ToolAbort::Failed { message },
            ToolFailure::TimedOut { .. } => ToolAbort::Timeout { tool: call.name.clone() },
        };
        return Err(abort);
    }
    let mut text = String::from_str("{\"error\":\"");
    match &failure {
        ToolFailure::NotFound => {
            text.append("tool not found: ");
            text.append(call.name.as_str());
        },
        ToolFailure::InvalidArguments { message } => {
            text.append(message.as_str());
        },
        ToolFailure::Failed { message } => {
            text.append(message.as_str());
        },
        ToolFailure::TimedOut { after } => {
            text.append("tool execution timeout after ");
            text.append(after.as_str());
        },
    }
    text.append("\"}");
    proof {
        assert(text@ =~= error_report(failure_text(failure, call.name@)));
    }
    Ok(Message::tool_text(call.id.clone(), call.name.clone(), text))
}

} // verus!
