//! Sub-agent fan-out: the time-windowed creation quota, the bounds on
//! nesting and fan-out, and the decision whether a child may be created.

use std::time::{Duration, Instant};
use vstd::prelude::*;
use vstd::string::*;

use crate::approval::{duration_nanos, instant_elapsed, instant_now};
use crate::text::{decimal, push_decimal};

verus! {

broadcast use vstd::string::group_string_axioms;

/// std `Duration::from_secs`. `Duration` is opaque to the verifier, so
/// nothing is stated of the value (the duration of `secs` whole seconds).
#[verifier::external_body]
pub(crate) fn duration_from_secs(secs: u64) -> Duration {
    Duration::from_secs(secs)
}

/// The recorded creations, as nanoseconds since the quota's origin, that
/// are still within a window of `window_ns` nanoseconds at time `now`:
/// those recorded at or after `now - window_ns`, in order.
pub open spec fn within_window(stamps: Seq<u128>, window_ns: u128, now: u128) -> Seq<u128> {
    stamps.filter(|t: u128| t + window_ns >= now)
}

/// A time-windowed quota for creating sub-agents: how many creations were
/// recorded within the last `window`, against a maximum.
///
/// Times are nanoseconds since the quota was made, read from the
/// monotonic clock. Advisory: the caller checks before creating a child
/// and records after.
pub struct QuotaWindow {
    max_creations: u32,
    window: Duration,
    window_ns: u128,
    origin: Instant,
    timestamps: Vec<u128>,
}

impl QuotaWindow {
    /// The maximum number of creations per window.
    pub closed spec fn spec_max(&self) -> u32 {
        self.max_creations
    }

    /// The window.
    pub closed spec fn spec_window(&self) -> Duration {
        self.window
    }

    /// The window, in nanoseconds.
    pub closed spec fn spec_window_ns(&self) -> u128 {
        self.window_ns
    }

    /// The recorded creations, in nanoseconds since the quota was made, in
    /// the order they were recorded (some may have left the window).
    pub closed spec fn spec_stamps(&self) -> Seq<u128> {
        self.timestamps@
    }

    /// The number of creations currently held (some may have expired).
    pub open spec fn spec_count(&self) -> nat {
        self.spec_stamps().len()
    }

    /// Well-formed: never more creations held than the maximum.
    pub open spec fn wf(&self) -> bool {
        self.spec_stamps().len() <= self.spec_max()
    }

    /// The same quota with only the given creations held.
    pub open spec fn holds(&self, other: &Self, stamps: Seq<u128>) -> bool {
        &&& self.spec_max() == other.spec_max()
        &&& self.spec_window() == other.spec_window()
        &&& self.spec_window_ns() == other.spec_window_ns()
        &&& self.spec_stamps() == stamps
    }

    /// A quota of `max_creations` per `window`, with nothing recorded.
    /// Its window in nanoseconds is the whole nanoseconds of `window`.
    pub fn new(max_creations: u32, window: Duration) -> (r: Self)
        ensures
            r.wf(),
            r.spec_max() == max_creations,
            r.spec_window() == window,
            r.spec_count() == 0,
    {
        let window_ns = duration_nanos(&window);
        QuotaWindow { max_creations, window, window_ns, origin: instant_now(), timestamps: Vec::new() }
    }

    /// The maximum number of creations per window.
    pub fn max_creations(&self) -> (r: u32)
        ensures
            r == self.spec_max(),
    {
        self.max_creations
    }

    /// The window.
    pub fn window(&self) -> (r: Duration)
        ensures
            r == self.spec_window(),
    {
        self.window
    }

    /// Nanoseconds since the quota was made, read from the monotonic clock.
    fn now_ns(&self) -> u128 {
        duration_nanos(&instant_elapsed(&self.origin))
    }

    /// Drops the recorded creations that are outside the window at time
    /// `now` (nanoseconds since the quota was made).
    pub fn evict_at(&mut self, now: u128)
        requires
            old(self).wf(),
        ensures
            final(self).wf(),
            final(self).holds(
                old(self),
                within_window(old(self).spec_stamps(), old(self).spec_window_ns(), now),
            ),
    {
        let ghost s = self.timestamps@;
        let w = self.window_ns;
        let mut kept: Vec<u128> = Vec::new();
        let mut i: usize = 0;
        while i < self.timestamps.len()
            invariant
                i <= self.timestamps@.len(),
                self.timestamps@ == s,
                w == self.window_ns,
                kept@ == within_window(s.take(i as int), w, now),
            decreases self.timestamps@.len() - i,
        {
            proof {
                assert(s.take(i + 1).drop_last() =~= s.take(i as int));
                reveal(Seq::filter);
            }
            let t = self.timestamps[i];
            if t >= now || now - t <= w {
                kept.push(t);
            }
            i = i + 1;
        }
        proof {
            assert(s.take(s.len() as int) =~= s);
            s.lemma_filter_len(|t: u128| t + w >= now);
        }
        self.timestamps = kept;
    }

    /// Drops the recorded creations that fall outside the window, at the
    /// time the clock gives.
    fn evict_expired(&mut self)
        requires
            old(self).wf(),
        ensures
            final(self).wf(),
            exists|now: u128|
                final(self).holds(
                    old(self),
                    within_window(old(self).spec_stamps(), old(self).spec_window_ns(), now),
                ),
    {
        let now = self.now_ns();
        self.evict_at(now);
    }

    /// The number of creations within the window at time `now`.
    pub fn active_count_at(&mut self, now: u128) -> (r: u32)
        requires
            old(self).wf(),
        ensures
            final(self).wf(),
            final(self).holds(
                old(self),
                within_window(old(self).spec_stamps(), old(self).spec_window_ns(), now),
            ),
            r == final(self).spec_count(),
    {
        self.evict_at(now);
        self.timestamps.len() as u32
    }

    /// The number of creations still allowed within the window at time
    /// `now`; zero when the quota is exhausted. Nothing is recorded.
    pub fn check_at(&mut self, now: u128) -> (r: u32)
        requires
            old(self).wf(),
        ensures
            final(self).wf(),
            final(self).holds(
                old(self),
                within_window(old(self).spec_stamps(), old(self).spec_window_ns(), now),
            ),
            r == old(self).spec_max() - within_window(
                old(self).spec_stamps(),
                old(self).spec_window_ns(),
                now,
            ).len(),
    {
        self.evict_at(now);
        self.max_creations - self.timestamps.len() as u32
    }

    /// Records a creation at time `now` if the quota allows one: `true`
    /// when fewer than the maximum were made within the window, and the
    /// creation is then recorded; `false` with nothing recorded otherwise.
    pub fn record_at(&mut self, now: u128) -> (r: bool)
        requires
            old(self).wf(),
        ensures
            final(self).wf(),
            ({
                let kept = within_window(old(self).spec_stamps(), old(self).spec_window_ns(), now);
                &&& r == (kept.len() < old(self).spec_max())
                &&& r ==> final(self).holds(old(self), kept.push(now))
                &&& !r ==> final(self).holds(old(self), kept)
            }),
    {
        self.evict_at(now);
        if self.timestamps.len() as u32 >= self.max_creations {
            return false;
        }
        self.timestamps.push(now);
        true
    }

    /// The number of creations within the window (expired ones are dropped
    /// first), at the time the clock gives.
    pub fn active_count(&mut self) -> (r: u32)
        requires
            old(self).wf(),
        ensures
            final(self).wf(),
            exists|now: u128|
                final(self).holds(
                    old(self),
                    within_window(old(self).spec_stamps(), old(self).spec_window_ns(), now),
                ),
            r == final(self).spec_count(),
    {
        let now = self.now_ns();
        self.active_count_at(now)
    }

    /// The number of creations still allowed within the window (expired
    /// ones are dropped first), at the time the clock gives; zero when the
    /// quota is exhausted. Nothing is recorded.
    pub fn check(&mut self) -> (r: u32)
        requires
            old(self).wf(),
        ensures
            final(self).wf(),
            exists|now: u128|
                final(self).holds(
                    old(self),
                    within_window(old(self).spec_stamps(), old(self).spec_window_ns(), now),
                ),
            r == final(self).spec_max() - final(self).spec_count(),
    {
        let now = self.now_ns();
        self.check_at(now)
    }

    /// Records a creation if the quota allows one (expired ones are dropped
    /// first), at the time the clock gives: `true` when fewer than the
    /// maximum were made within the window and the creation is recorded,
    /// `false` with nothing recorded otherwise.
    pub fn record(&mut self) -> (r: bool)
        requires
            old(self).wf(),
        ensures
            final(self).wf(),
            exists|now: u128|
                #![trigger within_window(old(self).spec_stamps(), old(self).spec_window_ns(), now)]
                {
                    let kept = within_window(old(self).spec_stamps(), old(self).spec_window_ns(), now);
                    &&& r == (kept.len() < old(self).spec_max())
                    &&& r ==> final(self).holds(old(self), kept.push(now))
                    &&& !r ==> final(self).holds(old(self), kept)
                },
    {
        let now = self.now_ns();
        self.record_at(now)
    }

    /// Forgets every recorded creation.
    pub fn reset(&mut self)
        ensures
            final(self).wf(),
            final(self).holds(old(self), Seq::empty()),
    {
        self.timestamps.clear();
    }
}

impl Default for QuotaWindow {
    /// Twenty-four creations per sixty seconds (the window, an opaque
    /// `Duration`, is not described by the contract).
    fn default() -> (r: Self)
        ensures
            r.wf(),
            r.spec_max() == 24,
            r.spec_count() == 0,
    {
        QuotaWindow::new(24, duration_from_secs(60))
    }
}

/// Safety bounds for sub-agent fan-out.
#[derive(Debug, Clone, Copy, PartialEq, Eq, Structural)]
pub struct SubagentBounds {
    /// Maximum nesting depth; `0` means no children at all.
    pub max_child_depth: u32,
    /// Maximum number of live children at one level.
    pub max_live_children: u32,
    /// Maximum number of descendants from the root.
    pub max_total_descendants: u32,
}

impl Default for SubagentBounds {
    fn default() -> (r: Self)
        ensures
            r == (SubagentBounds {
                max_child_depth: 4,
                max_live_children: 6,
                max_total_descendants: 24,
            }),
    {
        SubagentBounds { max_child_depth: 4, max_live_children: 6, max_total_descendants: 24 }
    }
}

/// Why a child could not be created.
#[derive(Debug, Clone, PartialEq, Eq, Structural)]
pub enum SubagentError {
    /// The nesting depth is at its maximum.
    MaxDepthExceeded { max: u32, current: u32 },
    /// The live children are at their maximum.
    MaxChildrenExceeded { max: u32 },
    /// The descendants are at their maximum.
    MaxDescendantsExceeded { max: u32, current: u32 },
}

impl SubagentError {
    /// The error message.
    pub fn message(&self) -> (r: String)
        ensures
            r@ == match *self {
                SubagentError::MaxDepthExceeded { max, current } => "max child depth ("@ + decimal(
                    max as nat,
                ) + ") exceeded at depth "@ + decimal(current as nat),
                SubagentError::MaxChildrenExceeded { max } => "max live children ("@ + decimal(
                    max as nat,
                ) + ") reached"@,
                SubagentError::MaxDescendantsExceeded { max, current } =>
                    "max total descendants ("@ + decimal(max as nat) + ") reached (current: "@
                    + decimal(current as nat) + ")"@,
            },
    {
        match self {
            SubagentError::MaxDepthExceeded { max, current } => {
                let mut m = String::from_str("max child depth (");
                push_decimal(&mut m, *max as u64);
                m.append(") exceeded at depth ");
                push_decimal(&mut m, *current as u64);
                m
            },
            SubagentError::MaxChildrenExceeded { max } => {
                let mut m = String::from_str("max live children (");
                push_decimal(&mut m, *max as u64);
                m.append(") reached");
                m
            },
            SubagentError::MaxDescendantsExceeded { max, current } => {
                let mut m = String::from_str("max total descendants (");
                push_decimal(&mut m, *max as u64);
                m.append(") reached (current: ");
                push_decimal(&mut m, *current as u64);
                m.append(")");
                m
            },
        }
    }
}

/// Configuration of a sub-engine.
pub struct SubEngineConfig {
    /// If set, only these tool names are visible to the sub-engine.
    pub allowed_tools: Option<Vec<String>>,
    /// Optional system prompt for the sub-engine's conversation.
    pub system_prompt: Option<String>,
    /// Maximum number of turns the sub-engine may run.
    pub max_turns: usize,
}

impl Default for SubEngineConfig {
    fn default() -> (r: Self)
        ensures
            r.allowed_tools is None,
            r.system_prompt is None,
            r.max_turns == 0,
    {
        SubEngineConfig { allowed_tools: None, system_prompt: None, max_turns: 0 }
    }
}

/// The decision on creating a child of an engine at `depth`, given the
/// live children and descendants counted so far: the depth bound is
/// checked first, then the live children, then the descendants.
pub open spec fn spec_child_creation(depth: u32, bounds: SubagentBounds, live: u32, total: u32) -> Result<
    (),
    SubagentError,
> {
    if depth >= bounds.max_child_depth {
        Err(SubagentError::MaxDepthExceeded { max: bounds.max_child_depth, current: depth })
    } else if live >= bounds.max_live_children {
        Err(SubagentError::MaxChildrenExceeded { max: bounds.max_live_children })
    } else if total >= bounds.max_total_descendants {
        Err(SubagentError::MaxDescendantsExceeded { max: bounds.max_total_descendants, current: total })
    } else {
        Ok(())
    }
}

/// Decides whether an engine at `depth` may create a child, given the live
/// children at its level and the descendants of its root.
pub fn check_child_creation(depth: u32, bounds: SubagentBounds, live: u32, total: u32) -> (r: Result<
    (),
    SubagentError,
>)
    ensures
        r == spec_child_creation(depth, bounds, live, total),
{
    if depth >= bounds.max_child_depth {
        return Err(SubagentError::MaxDepthExceeded { max: bounds.max_child_depth, current: depth });
    }
    if live >= bounds.max_live_children {
        return Err(SubagentError::MaxChildrenExceeded { max: bounds.max_live_children });
    }
    if total >= bounds.max_total_descendants {
        return Err(
            SubagentError::MaxDescendantsExceeded { max: bounds.max_total_descendants, current: total },
        );
    }
    Ok(())
}

/// Whether an engine at `depth` may create a child: every bound has room.
pub fn can_create_child(depth: u32, bounds: SubagentBounds, live: u32, total: u32) -> (r: bool)
    ensures
        r == (depth < bounds.max_child_depth && live < bounds.max_live_children && total
            < bounds.max_total_descendants),
{
    depth < bounds.max_child_depth && live < bounds.max_live_children && total
        < bounds.max_total_descendants
}

/// A child may be created exactly when the creation check succeeds.
pub proof fn lemma_can_create_iff_check_ok(depth: u32, bounds: SubagentBounds, live: u32, total: u32)
    ensures
        spec_child_creation(depth, bounds, live, total) is Ok <==> (depth < bounds.max_child_depth
            && live < bounds.max_live_children && total < bounds.max_total_descendants),
{
}

/// A child's own creation check sees one more level of depth: once the
/// depth bound is reached, no deeper child can be created whatever the
/// counters say.
pub proof fn lemma_depth_bound_blocks(depth: u32, bounds: SubagentBounds, live: u32, total: u32)
    requires
        depth >= bounds.max_child_depth,
    ensures
        spec_child_creation(depth, bounds, live, total) == Err::<(), SubagentError>(
            SubagentError::MaxDepthExceeded { max: bounds.max_child_depth, current: depth },
        ),
{
}

} // verus!
