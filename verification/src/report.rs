//! Check results and the report that gathers them.
use vstd::prelude::*;
use vstd::string::*;

use crate::status::{has_status, overall_of, status_name, HealthStatus};
use crate::text::{decimal, push_decimal};

verus! {

/// The result of a single health check.
#[derive(Clone, Debug)]
pub struct CheckResult {
    /// Name identifying this check.
    pub name: String,
    /// The health status determined by this check.
    pub status: HealthStatus,
    /// Latency of the check in milliseconds.
    pub latency_ms: u64,
    /// Optional message providing additional detail.
    pub message: Option<String>,
    /// Unix timestamp when the check was performed.
    pub timestamp: u64,
}

/// A check result as plain values.
pub struct CheckResultView {
    pub name: Seq<char>,
    pub status: HealthStatus,
    pub latency_ms: u64,
    pub message: Option<Seq<char>>,
    pub timestamp: u64,
}

/// The text of an optional message.
pub open spec fn message_view(m: Option<String>) -> Option<Seq<char>> {
    match m {
        Some(t) => Some(t@),
        None => None,
    }
}

impl View for CheckResult {
    type V = CheckResultView;

    open spec fn view(&self) -> CheckResultView {
        CheckResultView {
            name: self.name@,
            status: self.status,
            latency_ms: self.latency_ms,
            message: message_view(self.message),
            timestamp: self.timestamp,
        }
    }
}

/// An aggregated health report containing results from all checks.
#[derive(Clone, Debug)]
pub struct HealthReport {
    /// The overall health status, derived from individual check results.
    pub overall: HealthStatus,
    /// Individual check results.
    pub checks: Vec<CheckResult>,
    /// Unix timestamp when the report was generated.
    pub timestamp: u64,
}

/// The statuses of a sequence of results, in order.
pub open spec fn statuses_of(checks: Seq<CheckResult>) -> Seq<HealthStatus> {
    checks.map_values(|c: CheckResult| c.status)
}

/// The results whose status is `Unhealthy`, in order.
pub open spec fn unhealthy_only(checks: Seq<CheckResult>) -> Seq<CheckResult> {
    checks.filter(|c: CheckResult| c.status == HealthStatus::Unhealthy)
}

/// The results whose status is not `Healthy`, in order.
pub open spec fn not_healthy(checks: Seq<CheckResult>) -> Seq<CheckResult> {
    checks.filter(|c: CheckResult| c.status != HealthStatus::Healthy)
}

/// The results whose status is `Healthy`, in order.
pub open spec fn healthy_only(checks: Seq<CheckResult>) -> Seq<CheckResult> {
    checks.filter(|c: CheckResult| c.status == HealthStatus::Healthy)
}

/// The values that a sequence of references points to.
pub open spec fn targets(refs: Seq<&CheckResult>) -> Seq<CheckResult> {
    refs.map_values(|r: &CheckResult| *r)
}

/// Combine the statuses of the individual checks into the overall status:
/// any unhealthy check makes the whole unhealthy; otherwise degraded checks
/// make it degraded where some other check passed, and unhealthy where none
/// passed; where all passed it is healthy.
pub fn determine_overall(checks: &[CheckResult]) -> (overall: HealthStatus)
    ensures
        overall == overall_of(statuses_of(checks@)),
{
    let mut has_degraded = false;
    let mut has_healthy = false;
    let n = checks.len();
    let mut i: usize = 0;
    while i < n
        invariant
            n == checks@.len(),
            0 <= i <= n,
            forall|k: int| 0 <= k < i ==> checks@[k].status != HealthStatus::Unhealthy,
            has_degraded <==> exists|k: int| 0 <= k < i && checks@[k].status == HealthStatus::Degraded,
            has_healthy <==> exists|k: int| 0 <= k < i && checks@[k].status == HealthStatus::Healthy,
        decreases n - i,
    {
        match checks[i].status {
            HealthStatus::Unhealthy => {
                assert(statuses_of(checks@)[i as int] == HealthStatus::Unhealthy);
                return HealthStatus::Unhealthy;
            },
            HealthStatus::Degraded => {
                has_degraded = true;
            },
            HealthStatus::Healthy => {
                has_healthy = true;
            },
        }
        i = i + 1;
    }
    let ghost st = statuses_of(checks@);
    assert(!has_status(st, HealthStatus::Unhealthy));
    if has_healthy {
        let ghost k = choose|k: int| 0 <= k < n && checks@[k].status == HealthStatus::Healthy;
        assert(st[k] == HealthStatus::Healthy);
    } else {
        assert(!has_status(st, HealthStatus::Healthy));
    }
    if has_degraded {
        let ghost k = choose|k: int| 0 <= k < n && checks@[k].status == HealthStatus::Degraded;
        assert(st[k] == HealthStatus::Degraded);
        if has_healthy {
            HealthStatus::Degraded
        } else {
            HealthStatus::Unhealthy
        }
    } else {
        assert(!has_status(st, HealthStatus::Degraded));
        HealthStatus::Healthy
    }
}

/// The references to the results of `checks` whose status `keep` accepts,
/// in order.
fn select(checks: &Vec<CheckResult>, keep: HealthStatus, negate: bool) -> (r: Vec<&CheckResult>)
    ensures
        targets(r@) == checks@.filter(|c: CheckResult| (c.status == keep) != negate),
{
    let ghost pred = |c: CheckResult| (c.status == keep) != negate;
    let mut r: Vec<&CheckResult> = Vec::new();
    let n = checks.len();
    let mut i: usize = 0;
    while i < n
        invariant
            n == checks@.len(),
            0 <= i <= n,
            targets(r@) == checks@.take(i as int).filter(pred),
            pred == (|c: CheckResult| (c.status == keep) != negate),
        decreases n - i,
    {
        let c = &checks[i];
        let ghost prev = r@;
        let ghost pre = checks@.take(i + 1);
        proof {
            reveal_with_fuel(Seq::filter, 1);
            assert(pre.drop_last() =~= checks@.take(i as int));
            assert(pre.last() == *c);
            assert(pred(*c) == ((c.status == keep) != negate));
        }
        if (c.status == keep) != negate {
            r.push(c);
            assert(targets(r@) =~= targets(prev).push(*c));
        }
        assert(targets(r@) == pre.filter(pred));
        i = i + 1;
    }
    assert(checks@.take(n as int) =~= checks@);
    r
}

/// Appends a line feed and the summary line of `check` to `s`.
fn push_check_line(s: &mut String, check: &CheckResult)
    ensures
        final(s)@ == old(s)@ + "\n"@ + check_line(check@),
{
    let ghost prev = s@;
    s.append("\n  ");
    s.append(check.name.as_str());
    s.append(" — ");
    s.append(check.status.to_string().as_str());
    s.append(" — ");
    push_decimal(s, check.latency_ms);
    s.append("ms");
    match &check.message {
        Some(m) => {
            s.append(" (");
            s.append(m.as_str());
            s.append(")");
        },
        None => {},
    }
    assert(s@ =~= prev + "\n"@ + check_line(check@)) by {
        reveal_strlit("\n  ");
        reveal_strlit("\n");
        reveal_strlit("  ");
    }
}

impl HealthReport {
    /// Returns `true` if the overall status is `Healthy`.
    pub fn is_healthy(&self) -> (b: bool)
        ensures
            b == (self.overall == HealthStatus::Healthy),
    {
        self.overall == HealthStatus::Healthy
    }

    /// Returns `true` if the overall status is `Degraded`.
    ///
    /// In a report whose overall status was derived from its checks, a
    /// degraded report indicates that some checks passed while others did
    /// not, none of them unhealthy, meaning the system is partially
    /// operational.
    pub fn is_degraded(&self) -> (b: bool)
        ensures
            b == (self.overall == HealthStatus::Degraded),
    {
        self.overall == HealthStatus::Degraded
    }

    /// Returns references to all checks that have an `Unhealthy` status.
    pub fn failed_checks(&self) -> (r: Vec<&CheckResult>)
        ensures
            targets(r@) == unhealthy_only(self.checks@),
    {
        let r = select(&self.checks, HealthStatus::Unhealthy, false);
        assert((|c: CheckResult| (c.status == HealthStatus::Unhealthy) != false) =~= (|c: CheckResult| c.status == HealthStatus::Unhealthy));
        r
    }

    /// Returns references to all checks that are not `Healthy`.
    pub fn unhealthy_checks(&self) -> (r: Vec<&CheckResult>)
        ensures
            targets(r@) == not_healthy(self.checks@),
    {
        let r = select(&self.checks, HealthStatus::Healthy, true);
        assert((|c: CheckResult| (c.status == HealthStatus::Healthy) != true) =~= (|c: CheckResult| c.status != HealthStatus::Healthy));
        r
    }

    /// Returns references to all checks that are `Healthy`.
    pub fn healthy_checks(&self) -> (r: Vec<&CheckResult>)
        ensures
            targets(r@) == healthy_only(self.checks@),
    {
        let r = select(&self.checks, HealthStatus::Healthy, false);
        assert((|c: CheckResult| (c.status == HealthStatus::Healthy) != false) =~= (|c: CheckResult| c.status == HealthStatus::Healthy));
        r
    }

    /// A report of `checks` taken at `timestamp`, whose overall status is
    /// the combination of theirs.
    pub fn from_results(checks: Vec<CheckResult>, timestamp: u64) -> (r: HealthReport)
        ensures
            r.checks@ == checks@,
            r.overall == overall_of(statuses_of(checks@)),
            r.timestamp == timestamp,
    {
        let overall = determine_overall(checks.as_slice());
        HealthReport { overall, checks, timestamp }
    }

    /// Produce a human-readable summary of the report.
    pub fn summary(&self) -> (s: String)
        ensures
            s@ == summary_text(self.overall, self.checks@),
    {
        let mut s = "Overall: ".to_string();
        s.append(self.overall.to_string().as_str());
        let n = self.checks.len();
        let mut i: usize = 0;
        while i < n
            invariant
                n == self.checks@.len(),
                0 <= i <= n,
                s@ == "Overall: "@ + status_name(self.overall) + check_lines(self.checks@.take(i as int)),
            decreases n - i,
        {
            let check = &self.checks[i];
            push_check_line(&mut s, check);
            proof {
                assert(self.checks@.take(i + 1).drop_last() =~= self.checks@.take(i as int));
                assert(self.checks@.take(i + 1).last() == *check);
            }
            i = i + 1;
        }
        assert(self.checks@.take(n as int) =~= self.checks@);
        s
    }
}

/// The line of the summary that shows one check.
pub open spec fn check_line(c: CheckResultView) -> Seq<char> {
    "  "@ + c.name + " — "@ + status_name(c.status) + " — "@ + decimal(c.latency_ms as nat) + "ms"@
        + match c.message {
        Some(m) => " ("@ + m + ")"@,
        None => Seq::empty(),
    }
}

/// The lines of the summary that show the checks, each after a line feed.
pub open spec fn check_lines(checks: Seq<CheckResult>) -> Seq<char>
    decreases checks.len(),
{
    if checks.len() == 0 {
        Seq::empty()
    } else {
        check_lines(checks.drop_last()) + "\n"@ + check_line(checks.last()@)
    }
}

/// The summary of a report: the overall status, then one line per check.
pub open spec fn summary_text(overall: HealthStatus, checks: Seq<CheckResult>) -> Seq<char> {
    "Overall: "@ + status_name(overall) + check_lines(checks)
}

} // verus!
