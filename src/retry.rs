//! The retry policy: exponential backoff with cooperative cancellation.
//!
//! One call through the policy is driven by its caller: before each attempt
//! it asks [`Retry::may_invoke`] with the state of the cancellation signal,
//! hands each reply to [`Retry::after_reply`], and waits the delay that
//! comes back (returning [`cancelled_reply`] if the signal fires meanwhile).
use vstd::prelude::*;
use crate::model::Reply;
use crate::shapes::{failure, failure_reply};

verus! {

/// The delay before the second attempt, in milliseconds.
pub const FIRST_DELAY_MS: u64 = 50;

/// Where one call through the retry policy stands.
pub struct Retry {
    /// Attempts that have failed and been retried so far.
    pub attempt: usize,
    pub max_retries: usize,
    /// The wait after the current attempt, should it fail.
    pub delay_ms: u64,
}

/// The reply of a call stopped by cancellation.
pub fn cancelled_reply() -> (r: Reply)
    ensures
        r@ == failure("cancelled"@),
{
    failure_reply("cancelled")
}

impl Retry {
    /// The current attempt is one that the policy allows: the calls made so
    /// far, this one included, number at most `max_retries`.
    pub open spec fn wf(&self) -> bool {
        1 <= self.max_retries && self.attempt < self.max_retries
    }

    /// What is left of the budget of attempts, after the current one.
    pub open spec fn attempts_left(&self) -> nat {
        (self.max_retries - self.attempt - 1) as nat
    }

    pub fn new(max_retries: usize) -> (r: Retry)
        requires
            max_retries >= 1,
        ensures
            r.attempt == 0,
            r.max_retries == max_retries,
            r.delay_ms == FIRST_DELAY_MS,
            r.wf(),
    {
        Retry { attempt: 0, max_retries, delay_ms: FIRST_DELAY_MS }
    }

    /// Whether the current attempt may invoke the function: not once
    /// cancellation is signaled.
    pub fn may_invoke(&self, cancelled: bool) -> (r: bool)
        ensures
            r == !cancelled,
    {
        !cancelled
    }

    /// Takes the reply of the current attempt. `None`: the call is over and
    /// that reply is its result, as it is (a success, or the failure of the
    /// last attempt). `Some(d)`: wait `d` milliseconds, then attempt again.
    pub fn after_reply(&mut self, ok: bool) -> (r: Option<u64>)
        requires
            old(self).wf(),
        ensures
            final(self).wf(),
            final(self).max_retries == old(self).max_retries,
            (ok || old(self).attempt + 1 == old(self).max_retries) ==> r is None && *final(self)
                == *old(self),
            !(ok || old(self).attempt + 1 == old(self).max_retries) ==> {
                &&& r == Some(old(self).delay_ms)
                &&& final(self).attempt == old(self).attempt + 1
                &&& final(self).delay_ms == if old(self).delay_ms <= u64::MAX / 2 {
                    (2 * old(self).delay_ms) as u64
                } else {
                    u64::MAX
                }
            },
    {
        if ok || self.attempt + 1 == self.max_retries {
            return None;
        }
        let d = self.delay_ms;
        self.attempt = self.attempt + 1;
        self.delay_ms = if d <= u64::MAX / 2 { 2 * d } else { u64::MAX };
        Some(d)
    }
}

/// A call through the retry policy invokes its function at most
/// `max_retries` times: each retry uses up one attempt of the budget, and
/// the call is over when none is left.
pub proof fn lemma_retries_bounded(r: Retry, ok: bool)
    requires
        r.wf(),
    ensures
        r.attempt + 1 <= r.max_retries,
        r.attempts_left() == 0 ==> (r.attempt + 1 == r.max_retries),
        !ok && r.attempts_left() > 0 ==> ({
            let next = Retry { attempt: (r.attempt + 1) as usize, ..r };
            next.wf() && next.attempts_left() < r.attempts_left()
        }),
{
}

} // verus!
