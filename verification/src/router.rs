//! The decisions of the model router: whether a provider offers the
//! capabilities a request needs, how many attempts a call gets, and what
//! follows a failed attempt (exponential backoff or giving up).
//!
//! The calls themselves, and the waiting between them, belong to the
//! caller's loop: it makes an attempt, and on failure asks
//! [`decide_after_failure`] what to do next.
use vstd::prelude::*;

use crate::capabilities::ProviderCapabilities;

verus! {

/// Whether every capability that `required` asks for is offered by
/// `available` (the boolean flags only).
pub open spec fn spec_supports(available: ProviderCapabilities, required: ProviderCapabilities) -> bool {
    &&& required.chat ==> available.chat
    &&& required.chat_stream ==> available.chat_stream
    &&& required.tool_calling ==> available.tool_calling
    &&& required.parallel_tool_calls ==> available.parallel_tool_calls
    &&& required.json_schema_output ==> available.json_schema_output
    &&& required.vision ==> available.vision
    &&& required.embeddings ==> available.embeddings
}

/// Checks if provider capabilities support all required capabilities.
pub fn supports_capabilities(available: &ProviderCapabilities, required: &ProviderCapabilities) -> (r:
    bool)
    ensures
        r == spec_supports(*available, *required),
{
    (!required.chat || available.chat) && (!required.chat_stream || available.chat_stream) && (
    !required.tool_calling || available.tool_calling) && (!required.parallel_tool_calls
        || available.parallel_tool_calls) && (!required.json_schema_output
        || available.json_schema_output) && (!required.vision || available.vision) && (
    !required.embeddings || available.embeddings)
}

/// The number of attempts a call gets: one more than the retries when
/// retrying on provider errors, else one.
pub open spec fn spec_max_attempts(retry_on_provider_error: bool, max_retries: u32) -> u64 {
    if retry_on_provider_error {
        (max_retries + 1) as u64
    } else {
        1
    }
}

/// The number of attempts a call gets.
pub fn max_attempts(retry_on_provider_error: bool, max_retries: u32) -> (r: u64)
    ensures
        r == spec_max_attempts(retry_on_provider_error, max_retries),
        r >= 1,
{
    if retry_on_provider_error {
        max_retries as u64 + 1
    } else {
        1
    }
}

/// Two to the power `e`.
pub open spec fn pow2(e: nat) -> nat
    decreases e,
{
    if e == 0 {
        1
    } else {
        2 * pow2((e - 1) as nat)
    }
}

/// The wait before the attempt after attempt `attempt` (counted from 1):
/// 100 ms, doubled for each earlier failure.
pub open spec fn spec_backoff_ms(attempt: nat) -> nat {
    100 * pow2((attempt - 1) as nat)
}

/// What to do after a failed attempt.
#[derive(Debug, Clone, Copy, PartialEq, Eq, Structural)]
pub enum RetryDecision {
    /// Wait this many milliseconds, then make the next attempt.
    Retry { backoff_ms: u64 },
    /// Give up and return the error.
    GiveUp,
}

/// Whether the wait after attempt `attempt` fits in `u64` milliseconds.
pub open spec fn backoff_fits(attempt: nat) -> bool {
    spec_backoff_ms(attempt) <= u64::MAX
}

proof fn lemma_pow2_positive(e: nat)
    ensures
        pow2(e) >= 1,
    decreases e,
{
    if e > 0 {
        lemma_pow2_positive((e - 1) as nat);
    }
}

/// The wait after a failed attempt `attempt` (counted from 1).
pub fn backoff_ms(attempt: u64) -> (r: u64)
    requires
        attempt >= 1,
        backoff_fits(attempt as nat),
    ensures
        r == spec_backoff_ms(attempt as nat),
{
    let mut p: u64 = 1;
    let mut k: u64 = 1;
    proof {
        lemma_pow2_positive((attempt - 1) as nat);
    }
    while k < attempt
        invariant
            1 <= k <= attempt,
            p == pow2((k - 1) as nat),
            100 * pow2((attempt - 1) as nat) <= u64::MAX,
        decreases attempt - k,
    {
        proof {
            lemma_pow2_monotone(k as nat, (attempt - 1) as nat);
        }
        p = p * 2;
        k = k + 1;
    }
    100 * p
}

proof fn lemma_pow2_monotone(a: nat, b: nat)
    requires
        a <= b,
    ensures
        pow2(a) <= pow2(b),
    decreases b - a,
{
    if a < b {
        lemma_pow2_monotone(a, (b - 1) as nat);
        lemma_pow2_positive((b - 1) as nat);
    }
}

/// The decision after attempt `attempt` of `max_attempts` failed: give up
/// when the error is not retryable or this was the last attempt; else
/// wait [`spec_backoff_ms`] and try again.
pub open spec fn spec_decide(attempt: nat, max_attempts: nat, retryable: bool) -> RetryDecision {
    if !retryable || attempt >= max_attempts {
        RetryDecision::GiveUp
    } else {
        RetryDecision::Retry { backoff_ms: spec_backoff_ms(attempt) as u64 }
    }
}

/// Decides what follows a failed attempt.
pub fn decide_after_failure(attempt: u64, max_attempts: u64, retryable: bool) -> (r: RetryDecision)
    requires
        1 <= attempt <= max_attempts,
        retryable && attempt < max_attempts ==> backoff_fits(attempt as nat),
    ensures
        r == spec_decide(attempt as nat, max_attempts as nat, retryable),
{
    if !retryable || attempt == max_attempts {
        RetryDecision::GiveUp
    } else {
        RetryDecision::Retry { backoff_ms: backoff_ms(attempt) }
    }
}

/// A call is attempted at most `max_attempts` times: the decision after
/// the last attempt is always to give up, and each retry waits twice as
/// long as the one before.
pub proof fn lemma_retry_bounded(attempt: nat, max_attempts: nat, retryable: bool)
    requires
        1 <= attempt,
    ensures
        attempt >= max_attempts ==> spec_decide(attempt, max_attempts, retryable) is GiveUp,
        spec_decide(attempt, max_attempts, retryable) is Retry ==> attempt < max_attempts && retryable,
        spec_backoff_ms(attempt + 1) == 2 * spec_backoff_ms(attempt),
{
    assert(pow2(attempt) == 2 * pow2((attempt - 1) as nat));
}

/// A failed attempt is retried exactly when its error is retryable and
/// attempts remain, after a wait of 100 ms for the first retry that
/// doubles with each further one; a provider error is retried up to
/// `max_retries` times only when retrying is on.
pub proof fn lemma_retry_decision(attempt: nat, max_attempts: nat, retryable: bool, max_retries: u32)
    requires
        1 <= attempt,
    ensures
        spec_decide(attempt, max_attempts, retryable) is Retry <==> (retryable && attempt
            < max_attempts),
        retryable && attempt < max_attempts ==> spec_decide(attempt, max_attempts, retryable)
            == (RetryDecision::Retry { backoff_ms: spec_backoff_ms(attempt) as u64 }),
        spec_backoff_ms(1) == 100,
        spec_max_attempts(true, max_retries) == max_retries + 1,
        spec_max_attempts(false, max_retries) == 1,
{
    assert(pow2(0) == 1);
}

/// A provider supports a request exactly when it offers every capability
/// the request needs: it supports a request needing nothing, it supports
/// its own capabilities, and lacking one needed capability is enough to
/// refuse.
pub proof fn lemma_supports(available: ProviderCapabilities, required: ProviderCapabilities)
    ensures
        (!required.chat && !required.chat_stream && !required.tool_calling
            && !required.parallel_tool_calls && !required.json_schema_output && !required.vision
            && !required.embeddings) ==> spec_supports(available, required),
        spec_supports(available, available),
        !spec_supports(available, required) ==> (required.chat && !available.chat) || (
        required.chat_stream && !available.chat_stream) || (required.tool_calling
            && !available.tool_calling) || (required.parallel_tool_calls
            && !available.parallel_tool_calls) || (required.json_schema_output
            && !available.json_schema_output) || (required.vision && !available.vision) || (
        required.embeddings && !available.embeddings),
        required.chat && !available.chat ==> !spec_supports(available, required),
        required.tool_calling && !available.tool_calling ==> !spec_supports(available, required),
        required.embeddings && !available.embeddings ==> !spec_supports(available, required),
        required.vision && !available.vision ==> !spec_supports(available, required),
{
}

} // verus!
