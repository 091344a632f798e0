//! The checker: the check definitions it holds, how they are added and
//! found again, and how a user-provided check is run.
use vstd::prelude::*;
use vstd::string::*;

use crate::report::{CheckResult, CheckResultView};
use crate::status::{apply_threshold, threshold_step};

verus! {

/// A user-provided check, run on demand.
pub trait CustomCheck: Send + Sync {
    /// Whether the check may be run.
    spec fn ready(&self) -> bool;

    /// Whether `r` is a result that the check may give.
    spec fn gives(&self, r: CheckResult) -> bool;

    /// Runs the check.
    fn run(&self) -> (r: CheckResult)
        requires
            self.ready(),
        ensures
            self.gives(r),
    ;
}

impl<F: Fn() -> CheckResult + Send + Sync> CustomCheck for F {
    open spec fn ready(&self) -> bool {
        call_requires(*self, ())
    }

    open spec fn gives(&self, r: CheckResult) -> bool {
        call_ensures(*self, (), r)
    }

    fn run(&self) -> (r: CheckResult) {
        self()
    }
}

/// A health check definition.
///
/// Each variant represents a different type of health check that can be performed.
pub enum Check {
    /// An HTTP health check that makes a GET request and verifies the status code.
    Http {
        /// Name identifying this check.
        name: String,
        /// URL to check.
        url: String,
        /// Expected HTTP status code.
        expected_status: u16,
        /// Timeout in milliseconds.
        timeout_ms: u64,
    },
    /// A TCP connectivity check.
    Tcp {
        /// Name identifying this check.
        name: String,
        /// Host to connect to.
        host: String,
        /// Port to connect to.
        port: u16,
        /// Timeout in milliseconds.
        timeout_ms: u64,
    },
    /// A custom check using a user-provided function.
    Custom {
        /// Name identifying this check.
        name: String,
        /// The check function.
        check_fn: Box<dyn CustomCheck>,
    },
}

/// A check definition as plain values; of a custom check only its name.
pub enum CheckView {
    /// An HTTP check: name, URL, expected status code, timeout.
    Http { name: Seq<char>, url: Seq<char>, expected_status: u16, timeout_ms: u64 },
    /// A TCP check: name, host, port, timeout.
    Tcp { name: Seq<char>, host: Seq<char>, port: u16, timeout_ms: u64 },
    /// A custom check: its name.
    Custom { name: Seq<char> },
}

impl View for Check {
    type V = CheckView;

    open spec fn view(&self) -> CheckView {
        match self {
            Check::Http { name, url, expected_status, timeout_ms } => CheckView::Http {
                name: name@,
                url: url@,
                expected_status: *expected_status,
                timeout_ms: *timeout_ms,
            },
            Check::Tcp { name, host, port, timeout_ms } => CheckView::Tcp {
                name: name@,
                host: host@,
                port: *port,
                timeout_ms: *timeout_ms,
            },
            Check::Custom { name, .. } => CheckView::Custom { name: name@ },
        }
    }
}

/// The name of a check.
pub open spec fn check_name(c: CheckView) -> Seq<char> {
    match c {
        CheckView::Http { name, .. } => name,
        CheckView::Tcp { name, .. } => name,
        CheckView::Custom { name } => name,
    }
}

/// The position of the first check named `name`, if any.
pub open spec fn first_named(checks: Seq<CheckView>, name: Seq<char>) -> Option<int> {
    checks.map_values(|c: CheckView| check_name(c)).index_of_first(name)
}

impl Check {
    /// Whether the check can be run as it stands: a custom check's function
    /// must be ready.
    pub open spec fn runnable(&self) -> bool {
        match self {
            Check::Custom { check_fn, .. } => check_fn.ready(),
            _ => true,
        }
    }

    /// Whether the check is custom and its function may give `g`.
    pub open spec fn gives(&self, g: CheckResult) -> bool {
        match self {
            Check::Custom { check_fn, .. } => check_fn.gives(g),
            _ => false,
        }
    }

    /// The name identifying this check.
    pub fn name(&self) -> (n: &String)
        ensures
            n@ == check_name(self@),
    {
        match self {
            Check::Http { name, .. } => name,
            Check::Tcp { name, .. } => name,
            Check::Custom { name, .. } => name,
        }
    }

    /// A custom check of the given name and function.
    fn custom(name: String, check_fn: Box<dyn CustomCheck>) -> (c: Check)
        ensures
            c@ == (CheckView::Custom { name: name@ }),
            c.runnable() == check_fn.ready(),
            forall|g: CheckResult| c.gives(g) == check_fn.gives(g),
    {
        Check::Custom { name, check_fn }
    }
}

/// Run a custom check: its result, under the check's name.
pub fn run_custom_check(name: &str, f: &dyn CustomCheck) -> (r: CheckResult)
    requires
        f.ready(),
    ensures
        exists|g: CheckResult| #[trigger] f.gives(g) && r@ == (CheckResultView { name: name@, ..g@ }),
{
    let mut result = f.run();
    let ghost g = result;
    result.name = name.to_string();
    assert(result@ == (CheckResultView { name: name@, ..g@ }));
    result
}

/// A health checker that manages multiple service checks, and for each of
/// them how many times in a row it has failed.
pub struct HealthChecker {
    checks: Vec<Check>,
    failures: Vec<u32>,
    failure_threshold: u32,
}

impl HealthChecker {
    /// Every check held can be run, and each has its count of failures.
    #[verifier::type_invariant]
    spec fn well_formed(self) -> bool {
        &&& forall|i: int| 0 <= i < self.checks@.len() ==> #[trigger] self.checks@[i].runnable()
        &&& self.failures@.len() == self.checks@.len()
    }

    /// The checks held, in the order they were added.
    pub closed spec fn held(&self) -> Seq<Check> {
        self.checks@
    }

    /// The checks, in the order they were added, as plain values.
    pub open spec fn check_views(&self) -> Seq<CheckView> {
        self.held().map_values(|c: Check| c@)
    }

    /// Whether the check at position `i` is custom and its function may give
    /// `g`.
    pub open spec fn gives_at(&self, i: int, g: CheckResult) -> bool {
        self.held()[i].gives(g)
    }

    /// For each check, how many of its latest results in a row were failures.
    pub closed spec fn failure_counts(&self) -> Seq<u32> {
        self.failures@
    }

    /// The consecutive failure threshold.
    pub closed spec fn threshold(&self) -> u32 {
        self.failure_threshold
    }

    /// Create a new `HealthChecker` with no checks and default failure threshold of 1.
    pub fn new() -> (c: Self)
        ensures
            c.check_views() == Seq::<CheckView>::empty(),
            c.held() == Seq::<Check>::empty(),
            c.failure_counts() == Seq::<u32>::empty(),
            c.threshold() == 1,
    {
        let c = HealthChecker { checks: Vec::new(), failures: Vec::new(), failure_threshold: 1 };
        assert(c.check_views() =~= Seq::<CheckView>::empty());
        c
    }

    /// Appends `c` to the checks, with no failures counted.
    fn push_check(&mut self, c: Check)
        requires
            c.runnable(),
        ensures
            final(self).check_views() == old(self).check_views().push(c@),
            final(self).held() == old(self).held().push(c),
            final(self).failure_counts() == old(self).failure_counts().push(0),
            final(self).threshold() == old(self).threshold(),
    {
        proof {
            use_type_invariant(&*self);
        }
        let ghost before = self.check_views();
        let mut whole = HealthChecker::new();
        std::mem::swap(&mut whole, self);
        let HealthChecker { mut checks, mut failures, failure_threshold } = whole;
        checks.push(c);
        failures.push(0);
        *self = HealthChecker { checks, failures, failure_threshold };
        assert(self.check_views() =~= before.push(c@));
    }

    /// Add an HTTP health check with default settings (expects 200, 5s timeout).
    pub fn add_http(&mut self, name: &str, url: &str) -> (r: &mut Self)
        ensures
            r.check_views() == old(self).check_views().push(
                CheckView::Http { name: name@, url: url@, expected_status: 200, timeout_ms: 5000 },
            ),
            r.held().drop_last() == old(self).held(),
            r.failure_counts() == old(self).failure_counts().push(0),
            r.threshold() == old(self).threshold(),
            *final(self) == *final(r),
    {
        self.add_http_with(name, url, 200, 5000)
    }

    /// Add an HTTP health check with custom expected status code and timeout.
    pub fn add_http_with(&mut self, name: &str, url: &str, expected_status: u16, timeout_ms: u64) -> (r:
        &mut Self)
        ensures
            r.check_views() == old(self).check_views().push(
                CheckView::Http { name: name@, url: url@, expected_status, timeout_ms },
            ),
            r.held().drop_last() == old(self).held(),
            r.failure_counts() == old(self).failure_counts().push(0),
            r.threshold() == old(self).threshold(),
            *final(self) == *final(r),
    {
        self.push_check(
            Check::Http { name: name.to_string(), url: url.to_string(), expected_status, timeout_ms },
        );
        self
    }

    /// Add a TCP connectivity check with a default 5s timeout.
    pub fn add_tcp(&mut self, name: &str, host: &str, port: u16) -> (r: &mut Self)
        ensures
            r.check_views() == old(self).check_views().push(
                CheckView::Tcp { name: name@, host: host@, port, timeout_ms: 5000 },
            ),
            r.held().drop_last() == old(self).held(),
            r.failure_counts() == old(self).failure_counts().push(0),
            r.threshold() == old(self).threshold(),
            *final(self) == *final(r),
    {
        self.add_tcp_with(name, host, port, 5000)
    }

    /// Add a TCP connectivity check with a custom timeout.
    pub fn add_tcp_with(&mut self, name: &str, host: &str, port: u16, timeout_ms: u64) -> (r:
        &mut Self)
        ensures
            r.check_views() == old(self).check_views().push(
                CheckView::Tcp { name: name@, host: host@, port, timeout_ms },
            ),
            r.held().drop_last() == old(self).held(),
            r.failure_counts() == old(self).failure_counts().push(0),
            r.threshold() == old(self).threshold(),
            *final(self) == *final(r),
    {
        self.push_check(Check::Tcp { name: name.to_string(), host: host.to_string(), port, timeout_ms });
        self
    }

    /// Add a custom health check using a user-provided function.
    pub fn add_custom<F: Fn() -> CheckResult + Send + Sync + 'static>(&mut self, name: &str, f: F) -> (r:
        &mut Self)
        requires
            call_requires(f, ()),
        ensures
            r.check_views() == old(self).check_views().push(CheckView::Custom { name: name@ }),
            forall|g: CheckResult| r.gives_at(r.check_views().len() - 1, g) == call_ensures(f, (), g),
            r.held().drop_last() == old(self).held(),
            r.failure_counts() == old(self).failure_counts().push(0),
            r.threshold() == old(self).threshold(),
            *final(self) == *final(r),
    {
        let b: Box<dyn CustomCheck> = Box::new(f);
        self.push_check(Check::custom(name.to_string(), b));
        self
    }

    /// Set the consecutive failure threshold: a check is considered unhealthy
    /// only once this many of its results in a row have failed (see
    /// `record_result`); below it a failing check is degraded.
    pub fn failure_threshold(&mut self, threshold: u32) -> (r: &mut Self)
        ensures
            r.check_views() == old(self).check_views(),
            r.held() == old(self).held(),
            r.failure_counts() == old(self).failure_counts(),
            r.threshold() == threshold,
            *final(self) == *final(r),
    {
        proof {
            use_type_invariant(&*self);
        }
        self.failure_threshold = threshold;
        self
    }

    /// The checks, in the order they were added; each can be run.
    pub fn checks(&self) -> (r: &Vec<Check>)
        ensures
            r@ == self.held(),
            r@.map_values(|c: Check| c@) == self.check_views(),
            forall|i: int| 0 <= i < r@.len() ==> #[trigger] r@[i].runnable(),
    {
        proof {
            use_type_invariant(self);
        }
        &self.checks
    }

    /// The first check named `name`, or `None` if there is none.
    pub fn find(&self, name: &str) -> (r: Option<&Check>)
        ensures
            match first_named(self.check_views(), name@) {
                Some(i) => r matches Some(c) && *c == self.held()[i] && c@ == self.check_views()[i]
                    && c.runnable(),
                None => r is None,
            },
    {
        proof {
            use_type_invariant(self);
        }
        match self.position(name) {
            Some(i) => Some(&self.checks[i]),
            None => None,
        }
    }

    /// The position of the first check named `name`, or `None` if there is
    /// none.
    pub fn position(&self, name: &str) -> (r: Option<usize>)
        ensures
            match r {
                Some(i) => first_named(self.check_views(), name@) == Some(i as int) && i
                    < self.held().len(),
                None => first_named(self.check_views(), name@) is None,
            },
    {
        let ghost names = self.check_views().map_values(|c: CheckView| check_name(c));
        let target = name.to_string();
        let n = self.checks.len();
        let mut i: usize = 0;
        while i < n
            invariant
                n == self.checks@.len(),
                0 <= i <= n,
                target@ == name@,
                names == self.check_views().map_values(|c: CheckView| check_name(c)),
                forall|k: int| 0 <= k < i ==> names[k] != name@,
            decreases n - i,
        {
            if *self.checks[i].name() == target {
                proof {
                    lemma_first_is(names, name@, i as int);
                }
                return Some(i);
            }
            assert(names[i as int] != name@);
            i = i + 1;
        }
        proof {
            lemma_first_is(names, name@, n as int);
        }
        None
    }

    /// Records the latest result of the check at `index`: the result as the
    /// check's failure count and the threshold make it.  A failure (an
    /// unhealthy result) adds one to the check's count of failures in a row
    /// and leaves the check unhealthy only once the count reaches the
    /// threshold, degraded before; any other result clears the count and
    /// keeps its status.  Only the status of the result changes.
    pub fn record_result(&mut self, index: usize, result: CheckResult) -> (r: CheckResult)
        requires
            index < old(self).held().len(),
        ensures
            r@ == (CheckResultView {
                status: threshold_step(
                    old(self).failure_counts()[index as int],
                    old(self).threshold(),
                    result.status,
                ).1,
                ..result@
            }),
            final(self).failure_counts() == old(self).failure_counts().update(
                index as int,
                threshold_step(
                    old(self).failure_counts()[index as int],
                    old(self).threshold(),
                    result.status,
                ).0,
            ),
            final(self).held() == old(self).held(),
            final(self).check_views() == old(self).check_views(),
            final(self).threshold() == old(self).threshold(),
    {
        proof {
            use_type_invariant(&*self);
        }
        let mut whole = HealthChecker::new();
        std::mem::swap(&mut whole, self);
        let HealthChecker { checks, mut failures, failure_threshold } = whole;
        let (count, status) = apply_threshold(failures[index], failure_threshold, result.status);
        failures.set(index, count);
        *self = HealthChecker { checks, failures, failure_threshold };
        let mut result = result;
        result.status = status;
        result
    }
}

/// The first `x` of `s` is at `i` when none comes before `i` and `s[i]` is
/// one (or there is none when `i` is the end).
proof fn lemma_first_is(s: Seq<Seq<char>>, x: Seq<char>, i: int)
    requires
        0 <= i <= s.len(),
        forall|k: int| 0 <= k < i ==> s[k] != x,
        i == s.len() || s[i] == x,
    ensures
        s.index_of_first(x) == if i < s.len() {
            Some(i)
        } else {
            None::<int>
        },
{
    s.index_of_first_ensures(x);
    match s.index_of_first(x) {
        Some(j) => {
            if j < i {
                assert(s[j] != x);
            } else if j > i {
                assert(s[i] != x);
            }
        },
        None => {
            if i < s.len() {
                assert(s.contains(x));
            }
        },
    }
}

impl Default for HealthChecker {
    fn default() -> (c: Self)
        ensures
            c.check_views() == Seq::<CheckView>::empty(),
            c.held() == Seq::<Check>::empty(),
            c.failure_counts() == Seq::<u32>::empty(),
            c.threshold() == 1,
    {
        Self::new()
    }
}

} // verus!
