//! Human-in-the-loop tool approval: policies, pending approvals with
//! optional timeouts, and the approval book that records decisions.

use std::time::{Duration, Instant};
use vstd::prelude::*;

use crate::tool_types::{ToolCall, ToolCallView};

verus! {

/// `std::time::Instant`, carried opaquely.
#[verifier::external_type_specification]
#[verifier::external_body]
pub struct ExInstant(Instant);

/// Reads the monotonic clock (std `Instant::now`). Nothing is stated of
/// the value.
#[verifier::external_body]
pub(crate) fn instant_now() -> Instant {
    Instant::now()
}

/// Time elapsed since `start` (std `Instant::elapsed`). Nothing is stated
/// of the value, which depends on the clock.
#[verifier::external_body]
pub(crate) fn instant_elapsed(start: &Instant) -> Duration {
    start.elapsed()
}

/// The whole nanoseconds of a duration (std `Duration::as_nanos`). The
/// duration is opaque to the verifier, so the value is not described.
#[verifier::external_body]
pub(crate) fn duration_nanos(d: &Duration) -> u128 {
    d.as_nanos()
}

/// Whether an approval with timeout `timeout_ns` has expired once
/// `elapsed_ns` nanoseconds have passed since it was requested.
pub open spec fn spec_expired(elapsed_ns: u128, timeout_ns: Option<u128>) -> bool {
    match timeout_ns {
        Some(t) => elapsed_ns >= t,
        None => false,
    }
}

/// Whether an approval with timeout `timeout_ns` (nanoseconds; none for
/// no timeout) has expired after `elapsed_ns` nanoseconds.
pub fn expired_after(elapsed_ns: u128, timeout_ns: Option<u128>) -> (r: bool)
    ensures
        r == spec_expired(elapsed_ns, timeout_ns),
{
    match timeout_ns {
        Some(t) => elapsed_ns >= t,
        None => false,
    }
}

/// Controls when tool calls require human approval.
#[derive(Debug, Clone, Copy, PartialEq, Eq, Structural)]
pub enum ApprovalPolicy {
    /// Never require approval.
    AlwaysAllow,
    /// Always require approval.
    AlwaysDeny,
    /// Require approval for tools that ask for it.
    AskUser,
    /// Approve read-only tools automatically; ask for the others that ask
    /// for approval (the default).
    AutoForReadOnly,
}

impl Default for ApprovalPolicy {
    fn default() -> (r: Self)
        ensures
            r == ApprovalPolicy::AutoForReadOnly,
    {
        ApprovalPolicy::AutoForReadOnly
    }
}

/// Whether a tool needs approval under a policy.
pub open spec fn spec_requires_approval(p: ApprovalPolicy, tool_requires: bool, read_only: bool) -> bool {
    match p {
        ApprovalPolicy::AlwaysAllow => false,
        ApprovalPolicy::AlwaysDeny => true,
        ApprovalPolicy::AskUser => tool_requires,
        ApprovalPolicy::AutoForReadOnly => tool_requires && !read_only,
    }
}

impl ApprovalPolicy {
    /// `true` if a tool with the given flags needs approval.
    pub fn requires_approval(&self, tool_requires_approval: bool, tool_is_read_only: bool) -> (r:
        bool)
        ensures
            r == spec_requires_approval(*self, tool_requires_approval, tool_is_read_only),
    {
        match self {
            ApprovalPolicy::AlwaysAllow => false,
            ApprovalPolicy::AlwaysDeny => true,
            ApprovalPolicy::AskUser => tool_requires_approval,
            ApprovalPolicy::AutoForReadOnly => tool_requires_approval && !tool_is_read_only,
        }
    }
}

/// The policies are ordered by strictness: whatever `AutoForReadOnly`
/// requires, `AskUser` requires, and `AlwaysDeny` requires everything
/// that any policy requires.
pub proof fn lemma_policy_strictness(tool_requires: bool, read_only: bool, p: ApprovalPolicy)
    ensures
        spec_requires_approval(ApprovalPolicy::AutoForReadOnly, tool_requires, read_only)
            ==> spec_requires_approval(ApprovalPolicy::AskUser, tool_requires, read_only),
        spec_requires_approval(p, tool_requires, read_only) ==> spec_requires_approval(
            ApprovalPolicy::AlwaysDeny,
            tool_requires,
            read_only,
        ),
        !spec_requires_approval(ApprovalPolicy::AlwaysAllow, tool_requires, read_only),
{
}

/// What each policy decides, for every tool: `AlwaysAllow` never asks and
/// `AlwaysDeny` always does; `AskUser` asks exactly for the tools that ask
/// for approval, whether or not they are read-only; `AutoForReadOnly`
/// never asks for a read-only tool and otherwise decides as `AskUser`.
pub proof fn lemma_policy_decisions(tool_requires: bool, read_only: bool)
    ensures
        !spec_requires_approval(ApprovalPolicy::AlwaysAllow, tool_requires, read_only),
        spec_requires_approval(ApprovalPolicy::AlwaysDeny, tool_requires, read_only),
        spec_requires_approval(ApprovalPolicy::AskUser, tool_requires, read_only) == tool_requires,
        spec_requires_approval(ApprovalPolicy::AskUser, tool_requires, true) == spec_requires_approval(
            ApprovalPolicy::AskUser,
            tool_requires,
            false,
        ),
        !spec_requires_approval(ApprovalPolicy::AutoForReadOnly, tool_requires, true),
        spec_requires_approval(ApprovalPolicy::AutoForReadOnly, tool_requires, false)
            == spec_requires_approval(ApprovalPolicy::AskUser, tool_requires, false),
{
}

/// A tool call waiting for human approval.
#[derive(Debug)]
pub struct PendingApproval {
    /// The call awaiting approval.
    pub call: ToolCall,
    /// Why approval is requested.
    pub reason: String,
    /// When approval was requested.
    pub requested_at: Instant,
    /// Optional timeout, in nanoseconds, after which the request counts
    /// as denied.
    pub timeout_ns: Option<u128>,
}

impl PendingApproval {
    /// A pending approval requested now.
    pub fn new(call: ToolCall, reason: String, timeout_ns: Option<u128>) -> (r: Self)
        ensures
            r.call@ == call@,
            r.reason@ == reason@,
            r.timeout_ns == timeout_ns,
    {
        PendingApproval { call, reason, requested_at: instant_now(), timeout_ns }
    }

    /// Nanoseconds elapsed since the request, read from the monotonic
    /// clock.
    fn elapsed_ns(&self) -> u128 {
        duration_nanos(&instant_elapsed(&self.requested_at))
    }

    /// `true` once the timeout (if any) has elapsed since the request.
    /// Without a timeout the approval never expires.
    pub fn is_expired(&self) -> (r: bool)
        ensures
            self.timeout_ns is None ==> !r,
            self.timeout_ns == Some(0u128) ==> r,
    {
        expired_after(self.elapsed_ns(), self.timeout_ns)
    }
}

/// Abstract value of a decision.
pub enum DecisionView {
    /// Approved.
    Approve,
    /// Rejected, with an optional reason.
    Reject(Option<Seq<char>>),
}

/// The outcome of an approval request.
#[derive(Debug)]
pub enum ApprovalDecision {
    /// Approved for execution.
    Approve,
    /// Rejected.
    Reject {
        /// Optional reason shown to the model.
        reason: Option<String>,
    },
}

impl View for ApprovalDecision {
    type V = DecisionView;

    open spec fn view(&self) -> DecisionView {
        match self {
            ApprovalDecision::Approve => DecisionView::Approve,
            ApprovalDecision::Reject { reason } => DecisionView::Reject(
                crate::message::opt_view(*reason),
            ),
        }
    }
}

/// The identifiers of the pending approvals, in request order.
pub open spec fn pending_ids(p: Seq<PendingApproval>) -> Seq<Seq<char>> {
    p.map_values(|a: PendingApproval| a.call.id@)
}

/// Whether some approval of `p` for the call `id` has a timeout.
pub open spec fn timed_id(p: Seq<PendingApproval>, id: Seq<char>) -> bool {
    exists|k: int| 0 <= k < p.len() && #[trigger] p[k].call.id@ == id && p[k].timeout_ns is Some
}

/// The identifiers of the approvals of `p` that have expired when the
/// `k`-th has been pending for `e[k]` nanoseconds, in request order.
pub open spec fn expired_ids(p: Seq<PendingApproval>, e: Seq<u128>) -> Seq<Seq<char>>
    decreases p.len(),
{
    if p.len() == 0 {
        Seq::empty()
    } else {
        let rest = expired_ids(p.drop_last(), e);
        if spec_expired(e[p.len() - 1], p.last().timeout_ns) {
            rest.push(p.last().call.id@)
        } else {
            rest
        }
    }
}

/// The approvals of `p` that have not expired when the `k`-th has been
/// pending for `e[k]` nanoseconds, in request order.
pub open spec fn unexpired(p: Seq<PendingApproval>, e: Seq<u128>) -> Seq<PendingApproval>
    decreases p.len(),
{
    if p.len() == 0 {
        Seq::empty()
    } else {
        let rest = unexpired(p.drop_last(), e);
        if spec_expired(e[p.len() - 1], p.last().timeout_ns) {
            rest
        } else {
            rest.push(p.last())
        }
    }
}

/// Each expired approval is listed, and each listed one expired.
proof fn lemma_expired_ids(p: Seq<PendingApproval>, e: Seq<u128>)
    requires
        e.len() >= p.len(),
    ensures
        forall|k: int|
            0 <= k < p.len() && spec_expired(e[k], #[trigger] p[k].timeout_ns) ==> expired_ids(
                p,
                e,
            ).contains(p[k].call.id@),
        forall|id: Seq<char>| #[trigger] expired_ids(p, e).contains(id) ==> timed_id(p, id),
    decreases p.len(),
{
    if p.len() > 0 {
        let q = p.drop_last();
        lemma_expired_ids(q, e);
        let rest = expired_ids(q, e);
        let r = expired_ids(p, e);
        let n = p.len() - 1;
        assert forall|k: int|
            0 <= k < p.len() && spec_expired(e[k], #[trigger] p[k].timeout_ns) implies r.contains(
            p[k].call.id@,
        ) by {
            if k < n {
                assert(q[k] == p[k]);
                assert(rest.contains(q[k].call.id@));
                let j = choose|j: int| 0 <= j < rest.len() && rest[j] == q[k].call.id@;
                assert(r[j] == rest[j]);
            } else {
                assert(r[r.len() - 1] == p[k].call.id@);
            }
        }
        assert forall|id: Seq<char>| #[trigger] r.contains(id) implies timed_id(p, id) by {
            if rest.contains(id) {
                let k = choose|k: int|
                    0 <= k < q.len() && #[trigger] q[k].call.id@ == id && q[k].timeout_ns is Some;
                assert(p[k] == q[k]);
            } else {
                let j = choose|j: int| 0 <= j < r.len() && r[j] == id;
                if j < rest.len() {
                    assert(rest[j] == id);
                } else {
                    assert(p[n].call.id@ == id && p[n].timeout_ns is Some);
                }
            }
        }
    }
}

/// The decision recorded last for an identifier, if any.
pub open spec fn lookup_decision(d: Seq<(String, ApprovalDecision)>, id: Seq<char>) -> Option<
    DecisionView,
>
    decreases d.len(),
{
    if d.len() == 0 {
        None
    } else if d.last().0@ == id {
        Some(d.last().1@)
    } else {
        lookup_decision(d.drop_last(), id)
    }
}

/// The approval book: pending approvals keyed by call identifier, and the
/// decisions taken.
#[derive(Debug)]
pub struct ApprovalGate {
    pending: Vec<PendingApproval>,
    decisions: Vec<(String, ApprovalDecision)>,
}

impl ApprovalGate {
    /// Identifiers of the pending approvals.
    pub closed spec fn spec_pending(&self) -> Seq<Seq<char>> {
        pending_ids(self.pending@)
    }

    /// The decision recorded for an identifier, if any.
    pub closed spec fn spec_decision(&self, id: Seq<char>) -> Option<DecisionView> {
        lookup_decision(self.decisions@, id)
    }

    /// The pending approvals, in request order.
    pub closed spec fn spec_approvals(&self) -> Seq<PendingApproval> {
        self.pending@
    }

    /// Whether the pending approval of the call `id` has a timeout.
    pub closed spec fn spec_timed(&self, id: Seq<char>) -> bool {
        timed_id(self.pending@, id)
    }

    /// Well-formedness: no identifier is pending twice.
    pub closed spec fn wf(&self) -> bool {
        self.spec_pending().no_duplicates()
    }

    /// An empty gate.
    pub fn new() -> (r: Self)
        ensures
            r.wf(),
            r.spec_pending().len() == 0,
            forall|id: Seq<char>| r.spec_decision(id) is None,
    {
        let r = ApprovalGate { pending: Vec::new(), decisions: Vec::new() };
        assert(r.spec_pending() =~= Seq::<Seq<char>>::empty());
        r
    }

    /// The position of a pending identifier.
    fn pending_index(&self, id: &String) -> (r: Option<usize>)
        ensures
            match r {
                Some(k) => k < self.spec_pending().len() && self.spec_pending()[k as int] == id@,
                None => !self.spec_pending().contains(id@),
            },
    {
        let mut i: usize = 0;
        while i < self.pending.len()
            invariant
                i <= self.pending.len(),
                forall|k: int| 0 <= k < i ==> self.spec_pending()[k] != id@,
            decreases self.pending.len() - i,
        {
            if self.pending[i].call.id == *id {
                return Some(i);
            }
            i = i + 1;
        }
        None
    }

    /// Submits a call for approval. Returns `true` when it was registered,
    /// `false` when a request with the same call identifier is pending.
    pub fn request(&mut self, call: ToolCall, reason: String, timeout_ns: Option<u128>) -> (r:
        bool)
        requires
            old(self).wf(),
        ensures
            final(self).wf(),
            r == !old(self).spec_pending().contains(call@.id),
            r ==> final(self).spec_pending() == old(self).spec_pending().push(call@.id),
            !r ==> final(self).spec_pending() == old(self).spec_pending(),
            forall|id: Seq<char>| final(self).spec_decision(id) == old(self).spec_decision(id),
    {
        match self.pending_index(&call.id) {
            Some(_) => false,
            None => {
                let ghost id = call@.id;
                self.pending.push(PendingApproval::new(call, reason, timeout_ns));
                proof {
                    assert(self.spec_pending() =~= old(self).spec_pending().push(id));
                }
                true
            },
        }
    }

    /// Records a decision for a pending call. Returns `true` when the call
    /// was pending; it is then no longer pending and the decision is
    /// recorded.
    pub fn decide(&mut self, call_id: &str, decision: ApprovalDecision) -> (r: bool)
        requires
            old(self).wf(),
        ensures
            final(self).wf(),
            r == old(self).spec_pending().contains(call_id@),
            r ==> !final(self).spec_pending().contains(call_id@),
            r ==> final(self).spec_decision(call_id@) == Some(decision@),
            r ==> forall|id: Seq<char>|
                id != call_id@ ==> final(self).spec_decision(id) == old(self).spec_decision(id),
            r ==> forall|id: Seq<char>|
                id != call_id@ ==> (final(self).spec_pending().contains(id) <==> old(
                    self,
                ).spec_pending().contains(id)),
            !r ==> final(self).spec_pending() == old(self).spec_pending(),
            !r ==> forall|id: Seq<char>| final(self).spec_decision(id) == old(self).spec_decision(id),
    {
        let key = String::from_str(call_id);
        match self.pending_index(&key) {
            Some(k) => {
                let ghost before = self.spec_pending();
                self.pending.remove(k);
                proof {
                    assert(self.spec_pending() =~= before.remove(k as int));
                    assert forall|id: Seq<char>| id != call_id@ implies (self.spec_pending().contains(id) <==> before.contains(id)) by {
                        if before.contains(id) {
                            let j = choose|j: int| 0 <= j < before.len() && before[j] == id;
                            if j < k {
                                assert(self.spec_pending()[j] == id);
                            } else {
                                assert(j != k);
                                assert(self.spec_pending()[j - 1] == id);
                            }
                        }
                    }
                    assert(!self.spec_pending().contains(call_id@)) by {
                        if self.spec_pending().contains(call_id@) {
                            let j = choose|j: int| 0 <= j < self.spec_pending().len() && self.spec_pending()[j] == call_id@;
                            if j < k {
                                assert(before[j] == before[k as int]);
                            } else {
                                assert(before[j + 1] == before[k as int]);
                            }
                        }
                    }
                    assert(self.spec_pending().no_duplicates()) by {
                        assert forall|a: int, b: int| 0 <= a < b < self.spec_pending().len() implies self.spec_pending()[a] != self.spec_pending()[b] by {
                            let a2 = if a < k { a } else { a + 1 };
                            let b2 = if b < k { b } else { b + 1 };
                            assert(self.spec_pending()[a] == before[a2]);
                            assert(self.spec_pending()[b] == before[b2]);
                        }
                    }
                }
                let ghost dbefore = self.decisions@;
                self.decisions.push((key, decision));
                proof {
                    assert(self.decisions@.drop_last() =~= dbefore);
                }
                true
            },
            None => false,
        }
    }

    /// `true` when the call's recorded decision is an approval.
    pub fn is_approved(&self, call_id: &str) -> (r: bool)
        ensures
            r == (self.spec_decision(call_id@) matches Some(DecisionView::Approve)),
    {
        let key = String::from_str(call_id);
        let mut i = self.decisions.len();
        assert(self.decisions@.take(i as int) =~= self.decisions@);
        while i > 0
            invariant
                i <= self.decisions.len(),
                key@ == call_id@,
                lookup_decision(self.decisions@, call_id@) == lookup_decision(
                    self.decisions@.take(i as int),
                    call_id@,
                ),
            decreases i,
        {
            let ghost pre = self.decisions@.take(i as int);
            assert(pre.drop_last() =~= self.decisions@.take(i - 1));
            assert(pre.last() == self.decisions@[i - 1]);
            if self.decisions[i - 1].0 == key {
                return match &self.decisions[i - 1].1 {
                    ApprovalDecision::Approve => true,
                    ApprovalDecision::Reject { .. } => false,
                };
            }
            i = i - 1;
        }
        false
    }

    /// Removes the pending approvals that have expired when the `k`-th has
    /// been pending for `elapsed_ns[k]` nanoseconds, and returns their
    /// call identifiers, in request order; the others stay, in order.
    pub fn expire_with_elapsed(&mut self, elapsed_ns: &[u128]) -> (r: Vec<String>)
        requires
            old(self).wf(),
            elapsed_ns@.len() == old(self).spec_approvals().len(),
        ensures
            crate::text::strings_view(r@) == expired_ids(old(self).spec_approvals(), elapsed_ns@),
            final(self).spec_approvals() == unexpired(old(self).spec_approvals(), elapsed_ns@),
            final(self).wf(),
            forall|id: Seq<char>|
                old(self).spec_pending().contains(id) <==> (final(self).spec_pending().contains(id)
                    || crate::text::strings_view(r@).contains(id)),
            forall|id: Seq<char>|
                #![trigger crate::text::strings_view(r@).contains(id)]
                crate::text::strings_view(r@).contains(id) ==> !final(self).spec_pending().contains(id)
                    && old(self).spec_timed(id),
            forall|id: Seq<char>| final(self).spec_decision(id) == old(self).spec_decision(id),
    {
        let mut kept: Vec<PendingApproval> = Vec::new();
        let mut expired: Vec<String> = Vec::new();
        let mut rest: Vec<PendingApproval> = Vec::new();
        std::mem::swap(&mut rest, &mut self.pending);
        let ghost all = pending_ids(rest@);
        let ghost orig = rest@;
        let ghost mut i: int = 0;
        let ghost e = elapsed_ns@;
        let mut idx: usize = 0;
        assert(all.skip(0) =~= all);
        assert(orig.take(0) =~= Seq::<PendingApproval>::empty());
        assert(crate::text::strings_view(expired@) =~= Seq::<Seq<char>>::empty());
        while rest.len() > 0
            invariant
                all == pending_ids(old(self).pending@),
                all.no_duplicates(),
                0 <= i <= all.len(),
                pending_ids(rest@) == all.skip(i),
                pending_ids(kept@).no_duplicates(),
                forall|id: Seq<char>|
                    all.take(i).contains(id) <==> (pending_ids(kept@).contains(id)
                        || crate::text::strings_view(expired@).contains(id)),
                forall|id: Seq<char>|
                    !(pending_ids(kept@).contains(id) && crate::text::strings_view(
                        expired@,
                    ).contains(id)),
                self.decisions@ == old(self).decisions@,
                orig == old(self).pending@,
                rest@ == orig.skip(i),
                idx == i,
                e == elapsed_ns@,
                e.len() == orig.len(),
                crate::text::strings_view(expired@) == expired_ids(orig.take(i), e),
                kept@ == unexpired(orig.take(i), e),
            decreases rest.len(),
        {
            let ghost rest_before = rest@;
            proof {
                assert(pending_ids(rest_before).len() == rest_before.len());
                assert(i < all.len());
            }
            let p = rest.remove(0);
            let ghost x = p.call.id@;
            proof {
                assert(pending_ids(rest_before)[0] == all.skip(i)[0]);
                assert(rest@ == rest_before.remove(0));
                assert forall|k: int| 0 <= k < rest@.len() implies pending_ids(rest@)[k] == all.skip(i + 1)[k] by {
                    assert(rest@[k] == rest_before[k + 1]);
                    assert(pending_ids(rest_before)[k + 1] == all.skip(i)[k + 1]);
                }
                assert(pending_ids(rest@) =~= all.skip(i + 1));
                assert(all[i] == x);
                assert(!all.take(i).contains(x)) by {
                    if all.take(i).contains(x) {
                        let j = choose|j: int| 0 <= j < i && all.take(i)[j] == x;
                        assert(all[j] == all[i]);
                    }
                }
                assert(all.take(i + 1) =~= all.take(i).push(x));
            }
            let ghost kb = pending_ids(kept@);
            let ghost eb = crate::text::strings_view(expired@);
            proof {
                assert(rest@ =~= orig.skip(i + 1));
                assert(p == orig[i]);
                assert(orig.take(i + 1).drop_last() =~= orig.take(i));
                assert(orig.take(i + 1).last() == orig[i]);
            }
            if expired_after(elapsed_ns[idx], p.timeout_ns) {
                expired.push(p.call.id);
                proof {
                    assert(crate::text::strings_view(expired@) =~= eb.push(x));
                    assert(pending_ids(kept@) == kb);
                }
            } else {
                kept.push(p);
                proof {
                    assert(pending_ids(kept@) =~= kb.push(x));
                    assert(crate::text::strings_view(expired@) == eb);
                    assert(!kb.contains(x));
                }
            }
            proof {
                assert forall|id: Seq<char>| all.take(i + 1).contains(id) <==> (pending_ids(kept@).contains(id)
                    || crate::text::strings_view(expired@).contains(id)) by {
                    crate::text::lemma_push_contains(all.take(i), x, id);
                    crate::text::lemma_push_contains(kb, x, id);
                    crate::text::lemma_push_contains(eb, x, id);
                }
                assert forall|id: Seq<char>| !(pending_ids(kept@).contains(id) && crate::text::strings_view(expired@).contains(id)) by {
                    crate::text::lemma_push_contains(kb, x, id);
                    crate::text::lemma_push_contains(eb, x, id);
                }
                i = i + 1;
            }
            idx = idx + 1;
        }
        proof {
            assert(all.take(i) =~= all);
            assert(orig.take(i) =~= orig);
            lemma_expired_ids(orig, e);
        }
        self.pending = kept;
        expired
    }

    /// Removes the pending approvals whose timeout has elapsed, read from
    /// the monotonic clock, and returns their call identifiers, in request
    /// order; the others stay, in order. Approvals without a timeout never
    /// expire; those with a zero timeout always do.
    pub fn expire_timed_out(&mut self) -> (r: Vec<String>)
        requires
            old(self).wf(),
        ensures
            exists|e: Seq<u128>|
                e.len() == old(self).spec_approvals().len() && crate::text::strings_view(r@)
                    == expired_ids(old(self).spec_approvals(), e) && final(self).spec_approvals()
                    == unexpired(old(self).spec_approvals(), e),
            forall|k: int|
                0 <= k < old(self).spec_approvals().len()
                    && old(self).spec_approvals()[k].timeout_ns == Some(0u128)
                    ==> crate::text::strings_view(r@).contains(
                    old(self).spec_approvals()[k].call.id@,
                ),
            final(self).wf(),
            forall|id: Seq<char>|
                old(self).spec_pending().contains(id) <==> (final(self).spec_pending().contains(id)
                    || crate::text::strings_view(r@).contains(id)),
            forall|id: Seq<char>|
                #![trigger crate::text::strings_view(r@).contains(id)]
                crate::text::strings_view(r@).contains(id) ==> !final(self).spec_pending().contains(id)
                    && old(self).spec_timed(id),
            forall|id: Seq<char>| final(self).spec_decision(id) == old(self).spec_decision(id),
    {
        let mut elapsed: Vec<u128> = Vec::new();
        let mut k: usize = 0;
        while k < self.pending.len()
            invariant
                k <= self.pending.len(),
                elapsed@.len() == k,
            decreases self.pending.len() - k,
        {
            elapsed.push(self.pending[k].elapsed_ns());
            k = k + 1;
        }
        let ghost before = self.pending@;
        proof {
            lemma_expired_ids(before, elapsed@);
        }
        let r = self.expire_with_elapsed(elapsed.as_slice());
        assert(elapsed@.len() == before.len() && crate::text::strings_view(r@) == expired_ids(
            before,
            elapsed@,
        ) && self.pending@ == unexpired(before, elapsed@));
        r
    }

    /// The number of pending approvals.
    pub fn pending_count(&self) -> (r: usize)
        ensures
            r == self.spec_pending().len(),
    {
        self.pending.len()
    }
}


} // verus!
