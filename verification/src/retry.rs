//! The policy by which a failed attempt is tried again: a fixed pause
//! between attempts and a bound on how many failures are forgiven.
use vstd::prelude::*;

verus! {

/// How an operation is retried. Attempts are numbered from one.
#[derive(Clone, Copy, Debug, PartialEq, Eq, Structural)]
pub struct RetryPolicy {
    /// The pause between one attempt and the next, in milliseconds.
    pub delay_millis: u64,
    /// The number of failed attempts after which another one is made. The
    /// failure of a later attempt is final.
    pub retries: u64,
}

/// What follows an attempt.
#[derive(Clone, Copy, Debug, PartialEq, Eq, Structural)]
pub enum Verdict {
    /// The attempt succeeded; the operation is over.
    Succeed,
    /// The attempt failed and another is made after the pause.
    Retry { delay_millis: u64 },
    /// The attempt failed and no other is made.
    Fail,
}

impl RetryPolicy {
    /// What the policy decides after attempt number `attempt`.
    pub open spec fn verdict(self, attempt: u64, succeeded: bool) -> Verdict {
        if succeeded {
            Verdict::Succeed
        } else if attempt > self.retries {
            Verdict::Fail
        } else {
            Verdict::Retry { delay_millis: self.delay_millis }
        }
    }

    /// The policy for acquiring the HID handle: ten milliseconds between
    /// attempts, five failures forgiven.
    pub open spec fn opening() -> RetryPolicy {
        RetryPolicy { delay_millis: 10, retries: 5 }
    }

    /// The policy for writing a frame: one millisecond between attempts,
    /// five failures forgiven.
    pub open spec fn writing() -> RetryPolicy {
        RetryPolicy { delay_millis: 1, retries: 5 }
    }

    /// The policy for acquiring the HID handle.
    pub fn for_open() -> (policy: RetryPolicy)
        ensures
            policy == Self::opening(),
    {
        RetryPolicy { delay_millis: 10, retries: 5 }
    }

    /// The policy for writing a frame.
    pub fn for_write() -> (policy: RetryPolicy)
        ensures
            policy == Self::writing(),
    {
        RetryPolicy { delay_millis: 1, retries: 5 }
    }

    /// Decides what follows attempt number `attempt`.
    pub fn decide(&self, attempt: u64, succeeded: bool) -> (verdict: Verdict)
        ensures
            verdict == self.verdict(attempt, succeeded),
    {
        if succeeded {
            Verdict::Succeed
        } else if attempt > self.retries {
            Verdict::Fail
        } else {
            Verdict::Retry { delay_millis: self.delay_millis }
        }
    }

    /// Under a policy, at most `retries + 1` attempts are made: the failure
    /// of any attempt beyond `retries` is final, and no earlier one is.
    pub proof fn lemma_attempts_bounded(self, attempt: u64)
        ensures
            self.verdict(attempt, false) is Fail <==> attempt > self.retries,
            self.verdict(attempt, false) !is Succeed,
            self.verdict(attempt, true) is Succeed,
    {
    }
}

} // verus!
