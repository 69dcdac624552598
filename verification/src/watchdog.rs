//! The watchdog: the independent liveness check over the publishers' "last
//! attempt" timestamps. A publisher that has not stamped for longer than its
//! interval plus a fixed margin is unresponsive, and the process must abort;
//! otherwise the watchdog heartbeats the service supervisor.

use vstd::prelude::*;

use crate::publisher::PublishAction;

verus! {

/// The watchdog's own cadence.
pub const DEFAULT_WATCHDOG_NOTIFY_INTERVAL_SECS: u64 = 10;

/// The slack allowed beyond a publisher's interval before it counts as
/// stalled.
pub const WATCHDOG_MARGIN_SECS: u64 = 2;

/// What one watchdog cycle found and what must follow.
#[derive(Clone, Copy, PartialEq, Eq, Structural, Debug)]
pub struct WatchdogVerdict {
    pub configuration_unresponsive: bool,
    pub utilization_unresponsive: bool,
    pub action: PublishAction,
}

/// A publisher is unresponsive when its last attempt lies further back than
/// its interval plus the margin.
pub open spec fn spec_unresponsive(elapsed_ms: int, interval_ms: int, margin_ms: int) -> bool {
    elapsed_ms > interval_ms + margin_ms
}

/// The action one watchdog cycle decides on: abort exactly when at least one
/// publisher is unresponsive.
pub open spec fn spec_watchdog_action(
    configuration_elapsed_ms: int,
    utilization_elapsed_ms: int,
    configuration_interval_ms: int,
    utilization_interval_ms: int,
    margin_ms: int,
) -> PublishAction {
    if spec_unresponsive(configuration_elapsed_ms, configuration_interval_ms, margin_ms)
        || spec_unresponsive(utilization_elapsed_ms, utilization_interval_ms, margin_ms) {
        PublishAction::FatalAbort
    } else {
        PublishAction::Continue
    }
}

/// One watchdog cycle: reads both publishers' elapsed times and decides. The
/// process must abort exactly when at least one publisher is unresponsive;
/// otherwise the supervisor gets a heartbeat.
pub fn watchdog_check(
    configuration_elapsed_ms: u64,
    utilization_elapsed_ms: u64,
    configuration_interval_ms: u64,
    utilization_interval_ms: u64,
    margin_ms: u64,
) -> (r: WatchdogVerdict)
    requires
        configuration_interval_ms + margin_ms <= u64::MAX,
        utilization_interval_ms + margin_ms <= u64::MAX,
    ensures
        r.configuration_unresponsive == spec_unresponsive(
            configuration_elapsed_ms as int,
            configuration_interval_ms as int,
            margin_ms as int,
        ),
        r.utilization_unresponsive == spec_unresponsive(
            utilization_elapsed_ms as int,
            utilization_interval_ms as int,
            margin_ms as int,
        ),
        (r.action == PublishAction::FatalAbort) == (r.configuration_unresponsive
            || r.utilization_unresponsive),
        r.action == spec_watchdog_action(
            configuration_elapsed_ms as int,
            utilization_elapsed_ms as int,
            configuration_interval_ms as int,
            utilization_interval_ms as int,
            margin_ms as int,
        ),
{
    let configuration_unresponsive = configuration_elapsed_ms > configuration_interval_ms
        + margin_ms;
    let utilization_unresponsive = utilization_elapsed_ms > utilization_interval_ms + margin_ms;
    let action = if configuration_unresponsive || utilization_unresponsive {
        PublishAction::FatalAbort
    } else {
        PublishAction::Continue
    };
    WatchdogVerdict { configuration_unresponsive, utilization_unresponsive, action }
}

/// Watchdog stall detection: whenever one publisher's last attempt is older
/// than its interval plus the margin, the cycle's verdict is the fatal
/// abort — the check runs every cycle, so the abort comes within one cycle
/// of the staleness.
pub proof fn lemma_watchdog_stall_detection(
    configuration_elapsed_ms: int,
    utilization_elapsed_ms: int,
    configuration_interval_ms: int,
    utilization_interval_ms: int,
    margin_ms: int,
)
    requires
        spec_unresponsive(configuration_elapsed_ms, configuration_interval_ms, margin_ms)
            || spec_unresponsive(utilization_elapsed_ms, utilization_interval_ms, margin_ms),
    ensures
        spec_watchdog_action(
            configuration_elapsed_ms,
            utilization_elapsed_ms,
            configuration_interval_ms,
            utilization_interval_ms,
            margin_ms,
        ) == PublishAction::FatalAbort,
{
}

} // verus!
