//! The health status of a check or of a whole report, and how the statuses
//! of many checks combine into one.
use vstd::prelude::*;

verus! {

/// The health status of a single check or an overall report.
#[derive(Clone, Copy, Debug, PartialEq, Eq, Structural)]
pub enum HealthStatus {
    /// The service is operating normally.
    Healthy,
    /// The service is operational but experiencing issues.
    Degraded,
    /// The service is not operational.
    Unhealthy,
}

/// The name under which a status is shown.
pub open spec fn status_name(s: HealthStatus) -> Seq<char> {
    match s {
        HealthStatus::Healthy => "Healthy"@,
        HealthStatus::Degraded => "Degraded"@,
        HealthStatus::Unhealthy => "Unhealthy"@,
    }
}

/// How bad a status is: 0 for healthy, 1 for degraded, 2 for unhealthy.
pub open spec fn severity(s: HealthStatus) -> int {
    match s {
        HealthStatus::Healthy => 0,
        HealthStatus::Degraded => 1,
        HealthStatus::Unhealthy => 2,
    }
}

/// Whether some status of `statuses` equals `s`.
pub open spec fn has_status(statuses: Seq<HealthStatus>, s: HealthStatus) -> bool {
    statuses.contains(s)
}

/// The overall status of a set of statuses: unhealthy as soon as one is
/// unhealthy; otherwise, where some are degraded, degraded when some others
/// passed (the system is partly operational) and unhealthy when none passed;
/// healthy when all passed.
pub open spec fn overall_of(statuses: Seq<HealthStatus>) -> HealthStatus {
    if has_status(statuses, HealthStatus::Unhealthy) {
        HealthStatus::Unhealthy
    } else if has_status(statuses, HealthStatus::Degraded) {
        if has_status(statuses, HealthStatus::Healthy) {
            HealthStatus::Degraded
        } else {
            HealthStatus::Unhealthy
        }
    } else {
        HealthStatus::Healthy
    }
}

/// One step of failure tracking for a check: from the number of
/// consecutive failures before a result with status `raw`, the number after
/// it and the status the check is given.  A failure (an unhealthy result)
/// adds one to the count (which stays at `u32::MAX` once there) and makes the
/// check unhealthy only once the count reaches `threshold`; below it the
/// check is degraded.  Any other result ends the run of failures and keeps
/// its status.
pub open spec fn threshold_step(consecutive_failures: u32, threshold: u32, raw: HealthStatus) -> (
    u32,
    HealthStatus,
) {
    if raw == HealthStatus::Unhealthy {
        let next = if consecutive_failures == u32::MAX {
            consecutive_failures
        } else {
            (consecutive_failures + 1) as u32
        };
        (next, if next >= threshold { HealthStatus::Unhealthy } else { HealthStatus::Degraded })
    } else {
        (0, raw)
    }
}

/// Applies the consecutive failure threshold to a check's result with status
/// `raw`, given how many failures in a row came before it: the new count and
/// the status the check is given.
pub fn apply_threshold(consecutive_failures: u32, threshold: u32, raw: HealthStatus) -> (next: (
    u32,
    HealthStatus,
))
    ensures
        next == threshold_step(consecutive_failures, threshold, raw),
{
    match raw {
        HealthStatus::Unhealthy => {
            let count = if consecutive_failures == u32::MAX {
                consecutive_failures
            } else {
                consecutive_failures + 1
            };
            if count >= threshold {
                (count, HealthStatus::Unhealthy)
            } else {
                (count, HealthStatus::Degraded)
            }
        },
        _ => (0, raw),
    }
}

impl HealthStatus {
    /// The status's name, as `Display` shows it.
    pub fn to_string(&self) -> (s: String)
        ensures
            s@ == status_name(*self),
    {
        match self {
            HealthStatus::Healthy => "Healthy".to_string(),
            HealthStatus::Degraded => "Degraded".to_string(),
            HealthStatus::Unhealthy => "Unhealthy".to_string(),
        }
    }
}

} // verus!
