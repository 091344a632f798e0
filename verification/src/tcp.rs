//! TCP checks: judging what came of the attempt to connect.
use vstd::prelude::*;
use vstd::string::*;

use crate::report::{CheckResult, CheckResultView};
use crate::status::HealthStatus;

verus! {

/// What came of the attempt to connect for a TCP check.
pub enum TcpOutcome {
    /// The connection was established.
    Connected,
    /// The connection failed, with this error text.
    Failed(String),
    /// The connection was not made within the timeout.
    Timeout,
}

/// The status and message of a TCP check of `address` with the given outcome.
pub open spec fn tcp_verdict(address: Seq<char>, outcome: TcpOutcome) -> (HealthStatus, Seq<char>) {
    match outcome {
        TcpOutcome::Connected => (
            HealthStatus::Healthy,
            "TCP connection to "@ + address + " established"@,
        ),
        TcpOutcome::Failed(e) => (HealthStatus::Unhealthy, "Connection refused: "@ + e@),
        TcpOutcome::Timeout => (HealthStatus::Unhealthy, "Timeout"@),
    }
}

/// The result of a TCP check of `address`: healthy exactly when the
/// connection was established.
pub fn tcp_check_result(
    name: &str,
    address: &str,
    latency_ms: u64,
    timestamp: u64,
    outcome: TcpOutcome,
) -> (r: CheckResult)
    ensures
        r@ == (CheckResultView {
            name: name@,
            status: tcp_verdict(address@, outcome).0,
            latency_ms,
            message: Some(tcp_verdict(address@, outcome).1),
            timestamp,
        }),
{
    let (status, message) = match outcome {
        TcpOutcome::Connected => {
            let mut m = "TCP connection to ".to_string();
            m.append(address);
            m.append(" established");
            (HealthStatus::Healthy, m)
        },
        TcpOutcome::Failed(e) => {
            let mut m = "Connection refused: ".to_string();
            m.append(e.as_str());
            (HealthStatus::Unhealthy, m)
        },
        TcpOutcome::Timeout => (HealthStatus::Unhealthy, "Timeout".to_string()),
    };
    CheckResult { name: name.to_string(), status, latency_ms, message: Some(message), timestamp }
}

} // verus!
