//! Retry policy for the generation calls.
//!
//! Each network call is retried on transient failures with bounded
//! exponential backoff: after the initial attempt, up to `MAX_RETRIES`
//! further attempts, waiting `BASE_DELAY_MS * 2^attempt` before the next
//! one. Any other failure is permanent and ends the call at once.

use vstd::prelude::*;

verus! {

/// Additional attempts allowed after the initial one.
pub const MAX_RETRIES: u32 = 5;

/// Backoff delay before the first retry, in milliseconds.
pub const BASE_DELAY_MS: u64 = 500;

/// What one network attempt came back with.
#[derive(Clone, Copy, Debug)]
pub enum CallEvent {
    /// The call delivered a well-formed, successful response.
    Completed,
    /// The request could not be sent or timed out at the transport level.
    SendFailed,
    /// The endpoint answered with this HTTP status.
    Status(u16),
    /// The endpoint answered success but the body could not be decoded.
    BadBody,
}

/// How one attempt's outcome bears on the retry policy.
#[derive(Clone, Copy, PartialEq, Eq, Structural, Debug)]
pub enum AttemptClass {
    Success,
    Transient,
    Permanent,
}

/// A status is transient when it reports rate limiting or a temporarily
/// unavailable upstream: 429, 502, 503 or 504.
pub open spec fn spec_is_transient_status(s: u16) -> bool {
    s == 429 || s == 502 || s == 503 || s == 504
}

/// The class of one attempt's outcome: successful statuses succeed,
/// transport failures and transient statuses are retried, everything else
/// is permanent.
pub open spec fn spec_classify(ev: CallEvent) -> AttemptClass {
    match ev {
        CallEvent::Completed => AttemptClass::Success,
        CallEvent::SendFailed => AttemptClass::Transient,
        CallEvent::BadBody => AttemptClass::Permanent,
        CallEvent::Status(s) => if 200 <= s < 300 {
            AttemptClass::Success
        } else if spec_is_transient_status(s) {
            AttemptClass::Transient
        } else {
            AttemptClass::Permanent
        },
    }
}

/// Classifies one attempt's outcome.
pub fn classify(ev: &CallEvent) -> (c: AttemptClass)
    ensures
        c == spec_classify(*ev),
{
    match ev {
        CallEvent::Completed => AttemptClass::Success,
        CallEvent::SendFailed => AttemptClass::Transient,
        CallEvent::BadBody => AttemptClass::Permanent,
        CallEvent::Status(s) => {
            let st = *s;
            if 200 <= st && st < 300 {
                AttemptClass::Success
            } else if st == 429 || st == 502 || st == 503 || st == 504 {
                AttemptClass::Transient
            } else {
                AttemptClass::Permanent
            }
        },
    }
}

/// What the caller of one logical generation call sees when it ends.
#[derive(Clone, Copy, PartialEq, Eq, Structural, Debug)]
pub enum RetryResult {
    /// An attempt succeeded.
    Succeeded,
    /// Every allowed attempt failed transiently.
    TransientExhausted,
    /// An attempt failed permanently; no further attempt was made.
    PermanentFailure,
}

/// What to do after the attempt with 0-based index `attempt` came back
/// with `ev`.
pub enum RetryDecision {
    /// The call succeeded; use the response.
    Done,
    /// Wait this many milliseconds, then make the next attempt.
    RetryAfter(u64),
    /// The retry budget is exhausted; fail with the last transient detail.
    FailTransientExhausted,
    /// Fail at once; the failure is permanent.
    FailPermanent,
}

/// 2^n.
pub open spec fn spec_pow2(n: nat) -> nat
    decreases n,
{
    if n == 0 {
        1
    } else {
        2 * spec_pow2((n - 1) as nat)
    }
}

/// The backoff delay before retry number `attempt + 1`, in milliseconds.
pub open spec fn spec_backoff_ms(attempt: nat) -> nat {
    BASE_DELAY_MS as nat * spec_pow2(attempt)
}

/// Computes the backoff delay `BASE_DELAY_MS * 2^attempt`.
pub fn backoff_delay_ms(attempt: u32) -> (r: u64)
    requires
        attempt < MAX_RETRIES,
    ensures
        r == spec_backoff_ms(attempt as nat),
{
    proof {
        reveal_with_fuel(spec_pow2, 6);
    }
    let mut p: u64 = 1;
    let mut k: u32 = 0;
    while k < attempt
        invariant
            k <= attempt,
            attempt < MAX_RETRIES,
            p == spec_pow2(k as nat),
        decreases attempt - k,
    {
        proof {
            reveal_with_fuel(spec_pow2, 6);
            lemma_pow2_mono(k as nat, (MAX_RETRIES - 1) as nat);
        }
        p = p * 2;
        k = k + 1;
    }
    proof {
        reveal_with_fuel(spec_pow2, 6);
        lemma_pow2_mono(attempt as nat, (MAX_RETRIES - 1) as nat);
    }
    BASE_DELAY_MS * p
}

/// 2^n grows with n and is at least 1.
proof fn lemma_pow2_mono(m: nat, n: nat)
    requires
        m <= n,
    ensures
        spec_pow2(m) <= spec_pow2(n),
        spec_pow2(n) >= 1,
    decreases n,
{
    if n > 0 {
        lemma_pow2_mono(0, (n - 1) as nat);
        if m < n {
            lemma_pow2_mono(m, (n - 1) as nat);
        }
    }
}

/// The decision after the 0-based attempt `attempt` came back with `ev`:
/// success ends the call, a transient failure is retried with exponential
/// backoff while budget remains, and anything else fails at once.
pub fn decide_after_attempt(attempt: u32, ev: &CallEvent) -> (d: RetryDecision)
    requires
        attempt <= MAX_RETRIES,
    ensures
        spec_classify(*ev) == AttemptClass::Success ==> d is Done,
        spec_classify(*ev) == AttemptClass::Permanent ==> d is FailPermanent,
        spec_classify(*ev) == AttemptClass::Transient && attempt < MAX_RETRIES ==> d
            == RetryDecision::RetryAfter(spec_backoff_ms(attempt as nat) as u64),
        spec_classify(*ev) == AttemptClass::Transient && attempt == MAX_RETRIES ==> d
            is FailTransientExhausted,
{
    match classify(ev) {
        AttemptClass::Success => RetryDecision::Done,
        AttemptClass::Permanent => RetryDecision::FailPermanent,
        AttemptClass::Transient => {
            if attempt < MAX_RETRIES {
                RetryDecision::RetryAfter(backoff_delay_ms(attempt))
            } else {
                RetryDecision::FailTransientExhausted
            }
        },
    }
}

/// The result of running the retry policy against the attempt outcomes
/// `evs`, where attempt `i` observes `evs[i]`, starting from attempt `i`:
/// the total number of attempts made and how the call ended, or `None`
/// when `evs` ends before the policy does.
pub open spec fn spec_retry_run(evs: Seq<CallEvent>, i: nat) -> Option<(nat, RetryResult)>
    decreases evs.len() - i,
{
    if i >= evs.len() {
        None
    } else {
        match spec_classify(evs[i as int]) {
            AttemptClass::Success => Some(((i + 1) as nat, RetryResult::Succeeded)),
            AttemptClass::Permanent => Some(((i + 1) as nat, RetryResult::PermanentFailure)),
            AttemptClass::Transient => if i >= MAX_RETRIES {
                Some(((i + 1) as nat, RetryResult::TransientExhausted))
            } else {
                spec_retry_run(evs, i + 1)
            },
        }
    }
}

/// Replays the retry policy against a recorded sequence of attempt
/// outcomes: attempt `i` observes `evs[i]`. Returns the number of
/// attempts made and the call's end, or `None` when the recording ends
/// before the policy does.
pub fn run_retry_policy(evs: &Vec<CallEvent>) -> (r: Option<(u32, RetryResult)>)
    ensures
        r is None <==> spec_retry_run(evs@, 0) is None,
        r matches Some(p) ==> spec_retry_run(evs@, 0) == Some((p.0 as nat, p.1)),
{
    let mut i: usize = 0;
    loop
        invariant
            i <= evs.len(),
            i <= MAX_RETRIES,
            spec_retry_run(evs@, 0) == spec_retry_run(evs@, i as nat),
        decreases evs.len() - i,
    {
        if i >= evs.len() {
            return None;
        }
        let d = decide_after_attempt(i as u32, &evs[i]);
        match d {
            RetryDecision::Done => {
                return Some(((i + 1) as u32, RetryResult::Succeeded));
            },
            RetryDecision::FailPermanent => {
                return Some(((i + 1) as u32, RetryResult::PermanentFailure));
            },
            RetryDecision::FailTransientExhausted => {
                return Some(((i + 1) as u32, RetryResult::TransientExhausted));
            },
            RetryDecision::RetryAfter(_) => {
                i = i + 1;
            },
        }
    }
}

/// When the first `k` attempts fail transiently and attempt `k` (0-based)
/// succeeds, the call succeeds using exactly `k + 1` attempts.
pub proof fn lemma_transient_then_success(evs: Seq<CallEvent>, k: nat)
    requires
        k <= MAX_RETRIES,
        k < evs.len(),
        forall|j: int| 0 <= j < k ==> spec_classify(evs[j]) == AttemptClass::Transient,
        spec_classify(evs[k as int]) == AttemptClass::Success,
    ensures
        spec_retry_run(evs, 0) == Some(((k + 1) as nat, RetryResult::Succeeded)),
{
    lemma_transient_prefix(evs, 0, k);
}

/// From attempt `i`, with attempts `i..k` transient and attempt `k`
/// successful, the run ends successfully after attempt `k`.
proof fn lemma_transient_prefix(evs: Seq<CallEvent>, i: nat, k: nat)
    requires
        i <= k <= MAX_RETRIES,
        k < evs.len(),
        forall|j: int| i <= j < k ==> spec_classify(evs[j]) == AttemptClass::Transient,
        spec_classify(evs[k as int]) == AttemptClass::Success,
    ensures
        spec_retry_run(evs, i) == Some(((k + 1) as nat, RetryResult::Succeeded)),
    decreases k - i,
{
    if i < k {
        lemma_transient_prefix(evs, i + 1, k);
    }
}

/// When every one of the `MAX_RETRIES + 1` allowed attempts fails
/// transiently, the call fails with the retry budget exhausted after
/// exactly `MAX_RETRIES + 1` attempts.
pub proof fn lemma_all_transient_exhausts(evs: Seq<CallEvent>)
    requires
        evs.len() > MAX_RETRIES,
        forall|j: int| 0 <= j <= MAX_RETRIES ==> spec_classify(evs[j]) == AttemptClass::Transient,
    ensures
        spec_retry_run(evs, 0) == Some(((MAX_RETRIES + 1) as nat, RetryResult::TransientExhausted)),
{
    lemma_transient_exhaust_from(evs, 0);
}

/// From attempt `i`, with all remaining allowed attempts transient, the
/// run exhausts the budget.
proof fn lemma_transient_exhaust_from(evs: Seq<CallEvent>, i: nat)
    requires
        i <= MAX_RETRIES,
        evs.len() > MAX_RETRIES,
        forall|j: int| i <= j <= MAX_RETRIES ==> spec_classify(evs[j]) == AttemptClass::Transient,
    ensures
        spec_retry_run(evs, i) == Some(((MAX_RETRIES + 1) as nat, RetryResult::TransientExhausted)),
    decreases MAX_RETRIES - i,
{
    if i < MAX_RETRIES {
        lemma_transient_exhaust_from(evs, i + 1);
    }
}

/// A permanently failing first attempt ends the call at once: exactly one
/// attempt is made and no retry follows.
pub proof fn lemma_permanent_fails_immediately(evs: Seq<CallEvent>)
    requires
        evs.len() > 0,
        spec_classify(evs[0]) == AttemptClass::Permanent,
    ensures
        spec_retry_run(evs, 0) == Some((1nat, RetryResult::PermanentFailure)),
{
}

} // verus!
