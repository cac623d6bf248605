//! The decisions around fetching from the OpenDota API: how often to try,
//! how long to wait between tries, and which HTTP statuses count as
//! success.

use vstd::prelude::*;

verus! {

/// How many times a fetch is tried before its last error is reported.
pub const FETCH_ATTEMPTS: u32 = 3;

/// Two to the power `e`.
pub open spec fn two_pow(e: nat) -> nat
    decreases e,
{
    if e == 0 {
        1
    } else {
        2 * two_pow((e - 1) as nat)
    }
}

/// The pause before try number `attempt` (counting from 0), in milliseconds:
/// 300 ms before the second try, doubling before each try after it.
pub open spec fn backoff_millis(attempt: nat) -> nat {
    300 * two_pow((attempt - 1) as nat)
}

proof fn lemma_pow2_monotone(a: nat, b: nat)
    requires
        a <= b,
    ensures
        two_pow(a) <= two_pow(b),
    decreases b,
{
    if a < b {
        lemma_pow2_monotone(a, (b - 1) as nat);
    }
}

/// The largest try number whose pause fits in a `u64` of milliseconds.
pub const MAX_BACKOFF_ATTEMPT: u32 = 56;

/// The pauses fit in a `u64` exactly up to try `MAX_BACKOFF_ATTEMPT`.
pub proof fn lemma_backoff_fits(attempt: nat)
    requires
        attempt >= 1,
    ensures
        backoff_millis(attempt) <= u64::MAX <==> attempt <= MAX_BACKOFF_ATTEMPT,
{
    assert(two_pow(56) == 72057594037927936) by {
        reveal_with_fuel(two_pow, 57);
    }
    assert(two_pow(56) == 2 * two_pow(55));
    if attempt <= MAX_BACKOFF_ATTEMPT {
        lemma_pow2_monotone((attempt - 1) as nat, 55);
    } else {
        lemma_pow2_monotone(56, (attempt - 1) as nat);
    }
}

/// The pause before try number `attempt` (at least 1), in milliseconds.
pub fn backoff_delay(attempt: u32) -> (ms: u64)
    requires
        1 <= attempt <= MAX_BACKOFF_ATTEMPT,
    ensures
        ms == backoff_millis(attempt as nat),
{
    let mut ms: u64 = 300;
    let mut k: u32 = 1;
    while k < attempt
        invariant
            1 <= k <= attempt,
            attempt <= MAX_BACKOFF_ATTEMPT,
            ms == backoff_millis(k as nat),
        decreases attempt - k,
    {
        proof {
            lemma_backoff_fits(attempt as nat);
            lemma_pow2_monotone(k as nat, (attempt - 1) as nat);
        }
        ms = ms * 2;
        k = k + 1;
    }
    ms
}

/// What a fetch does next.
#[derive(Debug, Clone, Copy, PartialEq, Eq, Structural)]
pub enum FetchStep {
    /// Make the next try, after pausing `wait_millis` when it is given.
    Attempt { wait_millis: Option<u64> },
    /// The last try succeeded: report its data and stop.
    Done,
    /// Every try has failed: report the error of the last one.
    GiveUp,
}

/// The step of a fetch that has made `attempt` tries (so the next one is
/// try number `attempt`, counting from 0) out of `max_attempts`, where
/// `last_ok` tells whether the last try made succeeded (`None` before the
/// first try).
pub open spec fn fetch_step_for(attempt: nat, max_attempts: nat, last_ok: Option<bool>) -> FetchStep {
    if last_ok == Some(true) {
        FetchStep::Done
    } else if attempt >= max_attempts {
        FetchStep::GiveUp
    } else if attempt == 0 {
        FetchStep::Attempt { wait_millis: None }
    } else {
        FetchStep::Attempt { wait_millis: Some(backoff_millis(attempt) as u64) }
    }
}

/// Decides what a fetch does next: it stops at the first try that
/// succeeds; otherwise the first try goes at once, later ones after the
/// backoff pause, and after `max_attempts` failed tries it gives up.
pub fn next_fetch_step(attempt: u32, max_attempts: u32, last_ok: Option<bool>) -> (step: FetchStep)
    requires
        attempt < max_attempts && last_ok != Some(true) ==> attempt <= MAX_BACKOFF_ATTEMPT,
    ensures
        step == fetch_step_for(attempt as nat, max_attempts as nat, last_ok),
{
    if last_ok == Some(true) {
        FetchStep::Done
    } else if attempt >= max_attempts {
        FetchStep::GiveUp
    } else if attempt == 0 {
        FetchStep::Attempt { wait_millis: None }
    } else {
        FetchStep::Attempt { wait_millis: Some(backoff_delay(attempt)) }
    }
}

/// An HTTP status is a success when it is in 200..=299.
pub open spec fn is_success_status(status: u16) -> bool {
    200 <= status <= 299
}

/// The server error a response with this status yields: none for a
/// success status, the status itself otherwise.
pub fn server_error_status(status: u16) -> (r: Option<u16>)
    ensures
        r == (if is_success_status(status) { None } else { Some(status) }),
{
    if 200 <= status && status <= 299 {
        None
    } else {
        Some(status)
    }
}

} // verus!
