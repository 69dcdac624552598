//! The publish loop's failure handling: outcome classification, the
//! consecutive-failure circuit breaker, and the no-catch-up sleep rule.
//!
//! The loop itself performs network I/O and lives outside this crate; it
//! feeds every cycle's outcome into `PublishLoopState::record_outcome` and
//! must run the fatal abort sequence when `FatalAbort` comes back.

use vstd::prelude::*;

verus! {

/// How many consecutive publish failures are tolerated; one more aborts.
pub const MAXIMUM_NUMBER_OF_CONSECUTIVE_PUBLISH_ERRORS: u8 = 3;

/// The configuration publisher's cadence.
pub const DEFAULT_NETWORK_CONFIGURATION_PUBLISH_INTERVAL_SECS: u64 = 600;

/// The utilization publisher's cadence.
pub const DEFAULT_NETWORK_UTILIZATION_PUBLISH_INTERVAL_SECS: u64 = 10;

/// What the publish loop must do after a cycle.
#[derive(Clone, Copy, PartialEq, Eq, Structural, Debug)]
pub enum PublishAction {
    Continue,
    FatalAbort,
}

/// A publish succeeds exactly when the collector answered HTTP 200; any
/// other status, or no response at all, is a failure.
pub open spec fn spec_publish_success(status: Option<u16>) -> bool {
    status == Some(200u16)
}

/// Classifies one publish outcome: `status` is the HTTP status of the
/// response, or `None` for a transport-level failure.
pub fn is_publish_success(status: Option<u16>) -> (r: bool)
    ensures
        r == spec_publish_success(status),
{
    match status {
        Some(code) => code == 200,
        None => false,
    }
}

/// One step of the circuit breaker: success clears the count; a failure
/// raises it by one and aborts when the count passes the threshold.
pub open spec fn spec_record(count: int, success: bool) -> (int, bool) {
    if success {
        (0, false)
    } else {
        (count + 1, count + 1 > MAXIMUM_NUMBER_OF_CONSECUTIVE_PUBLISH_ERRORS)
    }
}

/// The error count after `k` consecutive failures, starting from a clear
/// state.
pub open spec fn count_after_failures(k: nat) -> int
    decreases k,
{
    if k == 0 {
        0
    } else {
        spec_record(count_after_failures((k - 1) as nat), false).0
    }
}

/// One publisher's consecutive-failure counter.
#[derive(Clone, Copy, PartialEq, Eq, Structural, Debug)]
pub struct PublishLoopState {
    pub error_count: u8,
}

impl PublishLoopState {
    /// The count never passes one beyond the threshold: the loop aborts
    /// at that point and records nothing further.
    pub open spec fn well_formed(self) -> bool {
        self.error_count <= MAXIMUM_NUMBER_OF_CONSECUTIVE_PUBLISH_ERRORS + 1
    }

    pub fn new() -> (r: PublishLoopState)
        ensures
            r.error_count == 0,
            r.well_formed(),
    {
        PublishLoopState { error_count: 0 }
    }

    /// Feeds one cycle's outcome into the breaker. The caller must not call
    /// again after `FatalAbort`: the abort sequence terminates the process.
    pub fn record_outcome(&mut self, success: bool) -> (action: PublishAction)
        requires
            old(self).well_formed(),
            old(self).error_count <= MAXIMUM_NUMBER_OF_CONSECUTIVE_PUBLISH_ERRORS,
        ensures
            final(self).well_formed(),
            final(self).error_count as int == spec_record(old(self).error_count as int, success).0,
            (action == PublishAction::FatalAbort) == spec_record(
                old(self).error_count as int,
                success,
            ).1,
    {
        if success {
            self.error_count = 0;
            PublishAction::Continue
        } else {
            self.error_count = self.error_count + 1;
            if self.error_count > MAXIMUM_NUMBER_OF_CONSECUTIVE_PUBLISH_ERRORS {
                PublishAction::FatalAbort
            } else {
                PublishAction::Continue
            }
        }
    }
}

/// The circuit breaker fires exactly at the failure after the threshold:
/// starting from a clear state, `k` consecutive failures leave the count at
/// `k`, and the abort comes on the `j`-th failure exactly for
/// `j == threshold + 1` — once, and not before. Failures past that point do
/// not happen: the abort sequence terminates the process, so the loop
/// records at most `threshold + 1` of them.
pub proof fn lemma_circuit_breaker(k: nat)
    requires
        k <= MAXIMUM_NUMBER_OF_CONSECUTIVE_PUBLISH_ERRORS + 1,
    ensures
        count_after_failures(k) == k,
        forall|j: nat|
            1 <= j <= k ==> (#[trigger] spec_record(count_after_failures((j - 1) as nat), false).1
                <==> j == MAXIMUM_NUMBER_OF_CONSECUTIVE_PUBLISH_ERRORS + 1),
    decreases k,
{
    if k > 0 {
        lemma_circuit_breaker((k - 1) as nat);
    }
}

/// The sleep until the next cycle: the remainder of the interval, and none
/// at all when the cycle overran it — no negative sleep, no catch-up bursts.
pub fn remaining_sleep_ms(elapsed_ms: u64, interval_ms: u64) -> (r: u64)
    ensures
        r == if elapsed_ms < interval_ms {
            interval_ms - elapsed_ms
        } else {
            0
        },
{
    if elapsed_ms < interval_ms {
        interval_ms - elapsed_ms
    } else {
        0
    }
}

} // verus!
