//! When a failed register operation is tried again.
//!
//! Several sticks share one bus, and noise on it now and then keeps a device
//! from acknowledging its address. Only that failure is retried, with a wait
//! that starts at 1 ms and doubles on each attempt; once the doubled wait
//! would pass the cap, the failure is surfaced. Any other failure is
//! surfaced at once, so that wiring or protocol faults still show.
use vstd::arithmetic::power2::{lemma2_to64, pow2};
use vstd::prelude::*;

verus! {

/// The OS error code of a device that did not acknowledge its address.
pub const ENXIO: i32 = 6;
/// The first wait, in milliseconds.
pub const INITIAL_WAIT_MS: u64 = 1;
/// No wait after a doubling above this many milliseconds is made.
pub const WAIT_CAP_MS: u64 = 10000;

/// Whether a failure with this raw OS error code is the transient
/// "device did not acknowledge" fault.
pub fn is_transient(raw_os_error: Option<i32>) -> (r: bool)
    ensures
        r == (raw_os_error == Some(ENXIO)),
{
    match raw_os_error {
        Some(code) => code == ENXIO,
        None => false,
    }
}

/// What to do after an attempt failed.
#[derive(Debug, Clone, Copy, PartialEq, Eq, Structural)]
pub enum RetryStep {
    /// Wait this many milliseconds, then try again.
    RetryAfter(u64),
    /// Wait this many milliseconds, then surface the failure.
    GiveUpAfter(u64),
    /// Surface the failure at once.
    GiveUp,
}

/// The step after a failure, given the current wait.
pub open spec fn failure_step(wait: u64, transient: bool) -> RetryStep {
    if !transient {
        RetryStep::GiveUp
    } else if 2 * wait > WAIT_CAP_MS {
        RetryStep::GiveUpAfter(wait)
    } else {
        RetryStep::RetryAfter(wait)
    }
}

/// The wait after a failure, given the current wait.
pub open spec fn next_wait(wait: u64, transient: bool) -> u64 {
    if transient && 2 * wait <= WAIT_CAP_MS {
        (2 * wait) as u64
    } else {
        wait
    }
}

/// The wait in force after `k` transient failures in a row.
pub open spec fn wait_after_transient(k: nat) -> u64
    decreases k,
{
    if k == 0 {
        INITIAL_WAIT_MS
    } else {
        next_wait(wait_after_transient((k - 1) as nat), true)
    }
}

/// The retry state of one register operation.
pub struct Backoff {
    wait_ms: u64,
}

impl Backoff {
    /// The wait, in milliseconds, before the next attempt.
    pub closed spec fn wait(&self) -> u64 {
        self.wait_ms
    }

    pub open spec fn wf(&self) -> bool {
        1 <= self.wait() <= WAIT_CAP_MS
    }

    /// The state before the first attempt.
    pub fn new() -> (r: Backoff)
        ensures
            r.wait() == INITIAL_WAIT_MS,
            r.wf(),
    {
        Backoff { wait_ms: INITIAL_WAIT_MS }
    }

    /// Decides what follows a failed attempt; `transient` tells whether the
    /// failure was the one that is retried.
    pub fn on_failure(&mut self, transient: bool) -> (r: RetryStep)
        requires
            old(self).wf(),
        ensures
            r == failure_step(old(self).wait(), transient),
            final(self).wait() == next_wait(old(self).wait(), transient),
            final(self).wf(),
    {
        if !transient {
            return RetryStep::GiveUp;
        }
        let wait = self.wait_ms;
        if 2 * wait > WAIT_CAP_MS {
            RetryStep::GiveUpAfter(wait)
        } else {
            self.wait_ms = 2 * wait;
            RetryStep::RetryAfter(wait)
        }
    }
}

proof fn lemma_wait_after_transient(k: nat)
    requires
        k <= 13,
    ensures
        wait_after_transient(k) == pow2(k),
    decreases k,
{
    lemma2_to64();
    if k > 0 {
        lemma_wait_after_transient((k - 1) as nat);
    }
}

/// From a fresh state, a run of transient failures is retried thirteen times,
/// after waits of 1, 2, 4, ... 4096 ms; the fourteenth failure waits 8192 ms
/// and is then surfaced, since the next wait would pass the cap. Any other
/// failure is surfaced at once, whatever the wait.
pub proof fn lemma_transient_failures_give_up(k: nat, wait: u64)
    ensures
        k < 13 ==> failure_step(wait_after_transient(k), true) == RetryStep::RetryAfter(
            pow2(k) as u64,
        ),
        failure_step(wait_after_transient(13), true) == RetryStep::GiveUpAfter(8192),
        failure_step(wait, false) == RetryStep::GiveUp,
{
    lemma2_to64();
    lemma_wait_after_transient(13);
    if k < 13 {
        lemma_wait_after_transient(k);
        lemma_wait_after_transient(k + 1);
    }
}

} // verus!
