//! Properties that hold across the library's functions: how statuses
//! combine, how the report's views of its checks relate, what parsing gives
//! back of what was written, and what finding a check gives after adding one.
use vstd::prelude::*;

use crate::checker::{check_name, first_named, CheckView};
use crate::http::{
    http_verdict, lossy_text, request_text, status_code_of, url_parts, HttpOutcome,
};
use crate::report::{
    check_lines, healthy_only, not_healthy, statuses_of, summary_text, unhealthy_only, CheckResult,
};
use crate::status::{overall_of, severity, status_name, threshold_step, HealthStatus};
use crate::tcp::{tcp_verdict, TcpOutcome};
use crate::text::{
    decimal, is_digit, is_space, lemma_decimal_digits, lemma_digit_not_space,
    lemma_index_of_first_is, lemma_parse_decimal, parse_u16_spec, lemma_skip_spaces, lemma_word_then_rest, words,
};

verus! {

broadcast use vstd::seq_lib::group_filter_ensures;

/// The overall status is at least as bad as every status it combines, and
/// healthy where there are none; it is degraded only where some check
/// passed and some did not, and a set of only degraded checks, none of
/// which passed, is unhealthy.
pub proof fn law_overall_bounds(st: Seq<HealthStatus>)
    ensures
        forall|i: int| 0 <= i < st.len() ==> severity(#[trigger] st[i]) <= severity(overall_of(st)),
        st.len() == 0 ==> overall_of(st) == HealthStatus::Healthy,
        overall_of(st) == HealthStatus::Degraded ==> st.contains(HealthStatus::Healthy) && st.contains(
            HealthStatus::Degraded,
        ),
        st.len() > 0 && (forall|i: int| 0 <= i < st.len() ==> #[trigger] st[i]
            == HealthStatus::Degraded) ==> overall_of(st) == HealthStatus::Unhealthy,
{
    if st.len() > 0 && (forall|i: int| 0 <= i < st.len() ==> #[trigger] st[i]
        == HealthStatus::Degraded) {
        assert(st[0] == HealthStatus::Degraded);
        assert(!st.contains(HealthStatus::Healthy));
    }
    assert forall|i: int| 0 <= i < st.len() implies severity(#[trigger] st[i]) <= severity(
        overall_of(st),
    ) by {
        assert(st.contains(st[i]));
    }
}

/// The overall status depends only on which statuses occur, however many
/// times and in whatever order: checks that run in parallel may finish in
/// any order without changing it.
pub proof fn law_overall_ignores_order(a: Seq<HealthStatus>, b: Seq<HealthStatus>)
    requires
        a.to_multiset() =~= b.to_multiset(),
    ensures
        overall_of(a) == overall_of(b),
{
    a.to_multiset_ensures();
    b.to_multiset_ensures();
    assert(a.to_multiset().count(HealthStatus::Unhealthy) == b.to_multiset().count(
        HealthStatus::Unhealthy,
    ));
    assert(a.to_multiset().count(HealthStatus::Degraded) == b.to_multiset().count(
        HealthStatus::Degraded,
    ));
    assert(a.to_multiset().count(HealthStatus::Healthy) == b.to_multiset().count(
        HealthStatus::Healthy,
    ));
}

/// One more check that did not pass never improves the overall status, and
/// one more check that passed never worsens it.
pub proof fn law_overall_with_one_more(st: Seq<HealthStatus>, s: HealthStatus)
    ensures
        s != HealthStatus::Healthy ==> severity(overall_of(st)) <= severity(overall_of(st.push(s))),
        s == HealthStatus::Healthy ==> severity(overall_of(st.push(s))) <= severity(overall_of(st)),
{
    assert(st.push(s)[st.len() as int] == s);
    assert forall|t: HealthStatus| st.contains(t) implies st.push(s).contains(t) by {
        let i = choose|i: int| 0 <= i < st.len() && st[i] == t;
        assert(st.push(s)[i] == t);
    }
    assert forall|t: HealthStatus| st.push(s).contains(t) && t != s implies st.contains(t) by {
        let i = choose|i: int| 0 <= i < st.len() + 1 && st.push(s)[i] == t;
        assert(st[i] == t);
    }
}

/// Whether some result of `checks` has status `s`.
spec fn some_with(checks: Seq<CheckResult>, s: HealthStatus) -> bool {
    exists|i: int| 0 <= i < checks.len() && #[trigger] checks[i].status == s
}

proof fn lemma_has_status(checks: Seq<CheckResult>, s: HealthStatus)
    ensures
        statuses_of(checks).contains(s) == some_with(checks, s),
{
    if some_with(checks, s) {
        let i = choose|i: int| 0 <= i < checks.len() && #[trigger] checks[i].status == s;
        assert(statuses_of(checks)[i] == s);
    }
    if statuses_of(checks).contains(s) {
        let i = choose|i: int| 0 <= i < checks.len() && statuses_of(checks)[i] == s;
        assert(checks[i].status == s);
    }
}

/// A filter keeps something exactly when some element passes it.
proof fn lemma_filter_nonempty(s: Seq<CheckResult>, p: spec_fn(CheckResult) -> bool)
    ensures
        s.filter(p).len() > 0 <==> exists|i: int| 0 <= i < s.len() && p(#[trigger] s[i]),
{
    if exists|i: int| 0 <= i < s.len() && p(#[trigger] s[i]) {
        let i = choose|i: int| 0 <= i < s.len() && p(#[trigger] s[i]);
        s.lemma_filter_contains(p, i);
    }
    if s.filter(p).len() > 0 {
        let e = s.filter(p)[0];
        assert(s.filter(p).contains(e));
        s.lemma_filter_contains_rev(p, e);
        s.lemma_filter_pred(p, 0);
        let i = choose|i: int| 0 <= i < s.len() && s[i] == e;
        assert(p(s[i]));
    }
}

/// In a report whose overall status was derived from its checks (as
/// `HealthReport::from_results` derives it), the overall status is healthy
/// exactly when no check is unhealthy or degraded; degraded exactly when
/// no check failed, some check is not healthy and some check is; and
/// unhealthy exactly when some check failed or no check passed among checks
/// that are not all healthy.
pub proof fn law_overall_matches_filters(checks: Seq<CheckResult>)
    ensures
        (overall_of(statuses_of(checks)) == HealthStatus::Healthy) <==> not_healthy(checks).len()
            == 0,
        (overall_of(statuses_of(checks)) == HealthStatus::Degraded) <==> (unhealthy_only(
            checks,
        ).len() == 0 && not_healthy(checks).len() > 0 && healthy_only(checks).len() > 0),
        (overall_of(statuses_of(checks)) == HealthStatus::Unhealthy) <==> (unhealthy_only(
            checks,
        ).len() > 0 || (not_healthy(checks).len() > 0 && healthy_only(checks).len() == 0)),
{
    lemma_has_status(checks, HealthStatus::Unhealthy);
    lemma_has_status(checks, HealthStatus::Degraded);
    lemma_has_status(checks, HealthStatus::Healthy);
    lemma_filter_nonempty(checks, |c: CheckResult| c.status == HealthStatus::Unhealthy);
    lemma_filter_nonempty(checks, |c: CheckResult| c.status != HealthStatus::Healthy);
    lemma_filter_nonempty(checks, |c: CheckResult| c.status == HealthStatus::Healthy);
    if not_healthy(checks).len() > 0 {
        let i = choose|i: int|
            0 <= i < checks.len() && (|c: CheckResult| c.status != HealthStatus::Healthy)(
                #[trigger] checks[i],
            );
        if checks[i].status == HealthStatus::Degraded {
            assert(some_with(checks, HealthStatus::Degraded));
        } else {
            assert(some_with(checks, HealthStatus::Unhealthy));
        }
    }
    if healthy_only(checks).len() > 0 {
        let i = choose|i: int|
            0 <= i < checks.len() && (|c: CheckResult| c.status == HealthStatus::Healthy)(
                #[trigger] checks[i],
            );
        assert(some_with(checks, HealthStatus::Healthy));
    }
    if some_with(checks, HealthStatus::Healthy) {
        let i = choose|i: int| 0 <= i < checks.len() && #[trigger] checks[i].status
            == HealthStatus::Healthy;
        assert((|c: CheckResult| c.status == HealthStatus::Healthy)(checks[i]));
    }
    if some_with(checks, HealthStatus::Degraded) {
        let i = choose|i: int| 0 <= i < checks.len() && #[trigger] checks[i].status
            == HealthStatus::Degraded;
        assert((|c: CheckResult| c.status != HealthStatus::Healthy)(checks[i]));
    }
    if some_with(checks, HealthStatus::Unhealthy) {
        let i = choose|i: int| 0 <= i < checks.len() && #[trigger] checks[i].status
            == HealthStatus::Unhealthy;
        assert((|c: CheckResult| c.status != HealthStatus::Healthy)(checks[i]));
    }
}

/// The failed checks are the unhealthy checks that are not merely degraded,
/// in the same order; and every check is either healthy or unhealthy.
pub proof fn law_filters_partition(checks: Seq<CheckResult>)
    ensures
        unhealthy_only(checks) == not_healthy(checks).filter(
            |c: CheckResult| c.status == HealthStatus::Unhealthy,
        ),
        healthy_only(checks).len() + not_healthy(checks).len() == checks.len(),
    decreases checks.len(),
{
    reveal_with_fuel(Seq::filter, 1);
    if checks.len() > 0 {
        law_filters_partition(checks.drop_last());
        let c = checks.last();
        if c.status != HealthStatus::Healthy {
            let nh = not_healthy(checks.drop_last());
            assert(not_healthy(checks) == nh.push(c));
            assert(nh.push(c).drop_last() =~= nh);
        }
    }
}

} // verus!

verus! {

/// The scheme prefix of a URL.
pub open spec fn scheme(is_https: bool) -> Seq<char> {
    if is_https {
        "https://"@
    } else {
        "http://"@
    }
}

/// Whether `host` can stand as a URL's host: it holds no `:` and no `/`.
pub open spec fn plain_host(host: Seq<char>) -> bool {
    !host.contains(':') && !host.contains('/')
}

proof fn lemma_scheme(is_https: bool, tail: Seq<char>)
    ensures
        "https://"@.is_prefix_of(scheme(is_https) + tail) == is_https,
        "http://"@.is_prefix_of(scheme(is_https) + tail) == !is_https,
        scheme(is_https).len() == if is_https { 8int } else { 7int },
        (scheme(is_https) + tail).skip(scheme(is_https).len() as int) =~= tail,
{
    reveal_strlit("https://");
    reveal_strlit("http://");
    let url = scheme(is_https) + tail;
    if is_https {
        assert("https://"@ =~= url.subrange(0, 8));
        assert(url[4] == 's');
        assert(url.subrange(0, 7)[4] == 's');
    } else {
        assert("http://"@ =~= url.subrange(0, 7));
        assert(url[4] == ':');
        if url.len() >= 8 {
            assert(url.subrange(0, 8)[4] == ':');
        }
    }
}

/// A URL written from a scheme, a host, an explicit port and a path (which
/// may be empty) parses back into exactly those parts, the explicit port
/// whatever the scheme, and the root path `/` where the path is empty.
pub proof fn law_url_roundtrip(is_https: bool, host: Seq<char>, port: u16, path: Seq<char>)
    requires
        plain_host(host),
        path.len() == 0 || path[0] == '/',
    ensures
        crate::http::url_parts(scheme(is_https) + host + ":"@ + decimal(port as nat) + path) == Some(
            (is_https, host, port, if path.len() == 0 { "/"@ } else { path }),
        ),
{
    reveal_strlit(":");
    let dec = decimal(port as nat);
    lemma_decimal_digits(port as nat);
    lemma_parse_decimal(port);
    let host_port = host + ":"@ + dec;
    let rest = host_port + path;
    lemma_scheme(is_https, rest);
    assert(scheme(is_https) + host + ":"@ + dec + path =~= scheme(is_https) + rest);
    let slash = host_port.len() as int;
    assert forall|k: int| 0 <= k < slash implies rest[k] != '/' by {
        if k < host.len() {
            assert(host[k] != '/');
        } else if k > host.len() {
            assert(is_digit(dec[k - host.len() - 1]));
        }
    }
    if path.len() > 0 {
        assert(rest[slash] == '/');
        lemma_index_of_first_is(rest, '/', slash);
        assert(rest.take(slash) =~= host_port);
        assert(rest.skip(slash) =~= path);
    } else {
        assert(rest =~= host_port);
        lemma_index_of_first_is(rest, '/', slash);
    }
    assert forall|k: int| 0 <= k < host.len() implies host_port[k] != ':' by {
        assert(host[k] != ':');
    }
    lemma_index_of_first_is(host_port, ':', host.len() as int);
    assert(host_port.skip(host.len() + 1int) =~= dec);
    assert(host_port.take(host.len() as int) =~= host);
}

/// A URL without a port gets the scheme's default port (443 for HTTPS, 80
/// for HTTP), and a URL without a path gets the root path `/`.
pub proof fn law_url_defaults(is_https: bool, host: Seq<char>, path: Seq<char>)
    requires
        plain_host(host),
        path.len() == 0 || path[0] == '/',
    ensures
        crate::http::url_parts(scheme(is_https) + host + path) == Some(
            (
                is_https,
                host,
                if is_https { 443u16 } else { 80u16 },
                if path.len() == 0 { "/"@ } else { path },
            ),
        ),
{
    let rest = host + path;
    lemma_scheme(is_https, rest);
    assert(scheme(is_https) + host + path =~= scheme(is_https) + rest);
    assert forall|k: int| 0 <= k < host.len() implies rest[k] != '/' by {
        assert(host[k] != '/');
    }
    lemma_index_of_first_is(rest, '/', host.len() as int);
    assert(rest.take(host.len() as int) =~= host);
    assert(rest.skip(host.len() as int) =~= path);
    if path.len() == 0 {
        assert(rest =~= host);
    }
    assert forall|k: int| 0 <= k < host.len() implies host[k] != ':' by {
    }
    lemma_index_of_first_is(host, ':', host.len() as int);
}

/// A response whose status line is a protocol version, a space, a status
/// code and a reason phrase announces that code.
pub proof fn law_status_line(version: Seq<char>, code: u16, reason: Seq<char>, rest: Seq<char>)
    requires
        version.len() > 0,
        forall|k: int| 0 <= k < version.len() ==> !is_space(#[trigger] version[k]),
        !reason.contains('\n'),
        reason.len() == 0 || is_space(reason[0]),
    ensures
        crate::http::status_code_of(version + " "@ + decimal(code as nat) + reason + "\n"@ + rest)
            == Some(code),
{
    reveal_strlit(" ");
    reveal_strlit("\n");
    let dec = decimal(code as nat);
    lemma_decimal_digits(code as nat);
    lemma_parse_decimal(code);
    let line = version + " "@ + dec + reason;
    let s = line + "\n"@ + rest;
    assert(version + " "@ + dec + reason + "\n"@ + rest =~= s);
    let v = version.len() as int;
    let d = v + 1 + dec.len();
    assert forall|k: int| 0 <= k < line.len() implies s[k] != '\n' by {
        assert(s[k] == line[k]);
        if k < v {
            assert(!is_space(version[k]));
        } else if v < k < d {
            lemma_digit_not_space(dec[k - v - 1]);
        } else if k >= d {
            assert(reason[k - d] != '\n');
        }
    }
    lemma_index_of_first_is(s, '\n', line.len() as int);
    assert(s.take(line.len() as int) =~= line);
    assert forall|k: int| 0 <= k < v implies !is_space(#[trigger] line[k]) by {
        assert(line[k] == version[k]);
    }
    lemma_word_then_rest(line, 0, v);
    lemma_skip_spaces(line, v, v + 1);
    assert forall|k: int| v + 1 <= k < d implies !is_space(#[trigger] line[k]) by {
        lemma_digit_not_space(dec[k - v - 1]);
    }
    if d < line.len() {
        assert(line[d] == reason[0]);
    }
    lemma_word_then_rest(line, v + 1, d);
    assert(line.subrange(0, v) =~= version);
    assert(line.subrange(v + 1, d) =~= dec);
    assert(words(line)[1] == dec);
}

} // verus!

verus! {

/// After a check is added, looking a name up gives the first earlier check
/// of that name where there is one, else the added check where it bears the
/// name, else nothing.
pub proof fn law_find_after_add(checks: Seq<CheckView>, added: CheckView, name: Seq<char>)
    ensures
        first_named(checks.push(added), name) == match first_named(checks, name) {
            Some(i) => Some(i),
            None => if check_name(added) == name {
                Some(checks.len() as int)
            } else {
                None
            },
        },
{
    let names = checks.map_values(|c: CheckView| check_name(c));
    let longer = checks.push(added).map_values(|c: CheckView| check_name(c));
    assert(longer =~= names.push(check_name(added)));
    names.index_of_first_ensures(name);
    longer.index_of_first_ensures(name);
    match names.index_of_first(name) {
        Some(i) => {
            assert(longer[i] == name);
            match longer.index_of_first(name) {
                Some(j) => {
                    if j < i {
                        assert(names[j] == longer[j]);
                    } else if j > i {
                        assert(longer[i] != name);
                    }
                },
                None => {
                    assert(longer.contains(name));
                },
            }
        },
        None => {
            match longer.index_of_first(name) {
                Some(j) => {
                    if j < names.len() {
                        assert(names[j] == longer[j]);
                        assert(names.contains(name));
                    }
                },
                None => {
                    if check_name(added) == name {
                        assert(longer[names.len() as int] == name);
                        assert(longer.contains(name));
                    }
                },
            }
        },
    }
}

/// An HTTP check whose response announces a status code on a well-formed
/// status line is healthy exactly when that code is the expected one.
pub proof fn law_http_healthy_iff_expected(
    expected: u16,
    version: Seq<char>,
    code: u16,
    reason: Seq<char>,
    rest: Seq<char>,
)
    requires
        version.len() > 0,
        forall|k: int| 0 <= k < version.len() ==> !is_space(#[trigger] version[k]),
        !reason.contains('\n'),
        reason.len() == 0 || is_space(reason[0]),
    ensures
        (crate::http::response_verdict(
            expected,
            version + " "@ + decimal(code as nat) + reason + "\n"@ + rest,
        ).0 == HealthStatus::Healthy) == (code == expected),
{
    law_status_line(version, code, reason, rest);
}

} // verus!

verus! {

/// The failure count and status of a check after `k` failures in a row,
/// from a start with no failures.
pub open spec fn failure_run(threshold: u32, k: nat) -> (u32, HealthStatus)
    decreases k,
{
    if k == 0 {
        (0, HealthStatus::Healthy)
    } else {
        threshold_step(failure_run(threshold, (k - 1) as nat).0, threshold, HealthStatus::Unhealthy)
    }
}

/// After `k` failures in a row a check has counted `k` of them, and it is
/// unhealthy exactly when `k` has reached the threshold; before that it is
/// degraded.
pub proof fn law_threshold_run(threshold: u32, k: nat)
    requires
        1 <= k <= u32::MAX,
    ensures
        failure_run(threshold, k) == (
            k as u32,
            if k >= threshold { HealthStatus::Unhealthy } else { HealthStatus::Degraded },
        ),
    decreases k,
{
    let prev = failure_run(threshold, (k - 1) as nat);
    if k > 1 {
        law_threshold_run(threshold, (k - 1) as nat);
    }
    assert(prev.0 == (k - 1) as u32);
    assert(prev.0 < u32::MAX);
    assert(failure_run(threshold, k) == threshold_step(prev.0, threshold, HealthStatus::Unhealthy));
    assert((prev.0 + 1) as u32 == k as u32);
}

/// A result that is not a failure ends the run of failures and keeps its
/// status, whatever the threshold.
pub proof fn law_threshold_reset(consecutive_failures: u32, threshold: u32, raw: HealthStatus)
    requires
        raw != HealthStatus::Unhealthy,
    ensures
        threshold_step(consecutive_failures, threshold, raw) == (0u32, raw),
{
}

/// With a threshold of at most one (the default is one) every result keeps
/// its status.
pub proof fn law_threshold_one_keeps_status(
    consecutive_failures: u32,
    threshold: u32,
    raw: HealthStatus,
)
    requires
        threshold <= 1,
    ensures
        threshold_step(consecutive_failures, threshold, raw).1 == raw,
{
}

/// A failure is never reported as healthy, and is reported as unhealthy as
/// soon as the threshold is reached.
pub proof fn law_threshold_failure_status(consecutive_failures: u32, threshold: u32)
    ensures
        threshold_step(consecutive_failures, threshold, HealthStatus::Unhealthy).1
            != HealthStatus::Healthy,
        threshold_step(consecutive_failures, threshold, HealthStatus::Unhealthy).0 >= threshold
            <==> threshold_step(consecutive_failures, threshold, HealthStatus::Unhealthy).1
            == HealthStatus::Unhealthy,
{
}

} // verus!

verus! {

/// A URL with an explicit port and no path keeps that port, whatever the
/// scheme, and gets the root path.
pub proof fn law_url_port_without_path(is_https: bool, host: Seq<char>, port: u16)
    requires
        plain_host(host),
    ensures
        url_parts(scheme(is_https) + host + ":"@ + decimal(port as nat)) == Some(
            (is_https, host, port, "/"@),
        ),
{
    law_url_roundtrip(is_https, host, port, Seq::empty());
    assert(scheme(is_https) + host + ":"@ + decimal(port as nat) + Seq::<char>::empty()
        =~= scheme(is_https) + host + ":"@ + decimal(port as nat));
}

/// A URL that starts with neither `https://` nor `http://` does not parse.
pub proof fn law_url_needs_scheme(url: Seq<char>)
    requires
        !"https://"@.is_prefix_of(url),
        !"http://"@.is_prefix_of(url),
    ensures
        url_parts(url) is None,
{
}

/// A URL whose text after the `:` is not a `u16` does not parse.
pub proof fn law_url_bad_port(is_https: bool, host: Seq<char>, port_text: Seq<char>, path: Seq<char>)
    requires
        plain_host(host),
        !port_text.contains('/'),
        parse_u16_spec(port_text) is None,
        path.len() == 0 || path[0] == '/',
    ensures
        url_parts(scheme(is_https) + host + ":"@ + port_text + path) is None,
{
    reveal_strlit(":");
    let host_port = host + ":"@ + port_text;
    let rest = host_port + path;
    lemma_scheme(is_https, rest);
    assert(scheme(is_https) + host + ":"@ + port_text + path =~= scheme(is_https) + rest);
    let slash = host_port.len() as int;
    assert forall|k: int| 0 <= k < slash implies rest[k] != '/' by {
        if k < host.len() {
            assert(host[k] != '/');
        } else if k > host.len() {
            assert(port_text[k - host.len() - 1] == rest[k]);
            assert(port_text.contains(port_text[k - host.len() - 1]));
        }
    }
    if path.len() > 0 {
        assert(rest[slash] == '/');
        lemma_index_of_first_is(rest, '/', slash);
        assert(rest.take(slash) =~= host_port);
    } else {
        assert(rest =~= host_port);
        lemma_index_of_first_is(rest, '/', slash);
    }
    assert forall|k: int| 0 <= k < host.len() implies host_port[k] != ':' by {
        assert(host[k] != ':');
    }
    lemma_index_of_first_is(host_port, ':', host.len() as int);
    assert(host_port.skip(host.len() + 1int) =~= port_text);
}

/// An HTTP check is healthy exactly when the server answered and its
/// response announces the expected status code; it is never merely
/// degraded.  Its message shows the code received when it is the expected
/// one, the expected and the received code when they differ, and otherwise
/// why no code was read.
pub proof fn law_http_verdict(expected: u16, outcome: HttpOutcome)
    ensures
        (http_verdict(expected, outcome).0 == HealthStatus::Healthy) <==> (outcome matches HttpOutcome::Response(
            b,
        ) && status_code_of(lossy_text(b@)) == Some(expected)),
        http_verdict(expected, outcome).0 != HealthStatus::Degraded,
        outcome matches HttpOutcome::Response(b) ==> http_verdict(expected, outcome).1 == match status_code_of(
            lossy_text(b@),
        ) {
            Some(code) => if code == expected {
                "HTTP "@ + decimal(code as nat)
            } else {
                "Expected HTTP "@ + decimal(expected as nat) + ", got "@ + decimal(code as nat)
            },
            None => "Could not parse HTTP response"@,
        },
        outcome matches HttpOutcome::ConnectionError(e) ==> http_verdict(expected, outcome).1
            == "Connection error: "@ + e@,
        outcome is Timeout ==> http_verdict(expected, outcome).1 == "Timeout"@,
{
}

/// A TCP check is healthy exactly when the connection was established, and
/// unhealthy otherwise, whatever the error; the message names the address
/// it reached, or gives the error.
pub proof fn law_tcp_verdict(address: Seq<char>, outcome: TcpOutcome)
    ensures
        (tcp_verdict(address, outcome).0 == HealthStatus::Healthy) <==> outcome is Connected,
        !(outcome is Connected) ==> tcp_verdict(address, outcome).0 == HealthStatus::Unhealthy,
        outcome is Connected ==> tcp_verdict(address, outcome).1 == "TCP connection to "@ + address
            + " established"@,
        outcome matches TcpOutcome::Failed(e) ==> tcp_verdict(address, outcome).1
            == "Connection refused: "@ + e@,
        outcome is Timeout ==> tcp_verdict(address, outcome).1 == "Timeout"@,
{
}

/// The request of an HTTP check asks for exactly the URL's path: its first
/// line is `GET`, the whole path and the protocol, then comes the `Host`
/// header with the host, then the request to close the connection.
pub proof fn law_request_line(host: Seq<char>, path: Seq<char>)
    ensures
        request_text(host, path) == ("GET "@ + path + " HTTP/1.1\r\n"@) + ("Host: "@ + host
            + "\r\n"@) + "Connection: close\r\n\r\n"@,
        ("GET "@ + path + " HTTP/1.1\r\n"@).is_prefix_of(request_text(host, path)),
{
    reveal_strlit("GET ");
    reveal_strlit(" HTTP/1.1\r\nHost: ");
    reveal_strlit(" HTTP/1.1\r\n");
    reveal_strlit("Host: ");
    reveal_strlit("\r\nConnection: close\r\n\r\n");
    reveal_strlit("\r\n");
    reveal_strlit("Connection: close\r\n\r\n");
    let whole = ("GET "@ + path + " HTTP/1.1\r\n"@) + ("Host: "@ + host + "\r\n"@)
        + "Connection: close\r\n\r\n"@;
    assert(request_text(host, path) =~= whole);
    let first = "GET "@ + path + " HTTP/1.1\r\n"@;
    assert(whole.subrange(0, first.len() as int) =~= first);
}

/// The summary's first line is `Overall: ` and the report's overall status,
/// whatever that status is; it ends the text where there are no checks and
/// is followed by a line feed where there are.
pub proof fn law_summary_first_line(overall: HealthStatus, checks: Seq<CheckResult>)
    ensures
        ("Overall: "@ + status_name(overall)).is_prefix_of(summary_text(overall, checks)),
        checks.len() == 0 ==> summary_text(overall, checks) == "Overall: "@ + status_name(overall),
        checks.len() > 0 ==> summary_text(overall, checks)[("Overall: "@ + status_name(
            overall,
        )).len() as int] == '\n',
{
    reveal_strlit("\n");
    let head = "Overall: "@ + status_name(overall);
    let text = summary_text(overall, checks);
    assert(text.subrange(0, head.len() as int) =~= head);
    if checks.len() == 0 {
        assert(text =~= head);
    } else {
        lemma_check_lines_start(checks);
        assert(text[head.len() as int] == check_lines(checks)[0]);
    }
}

proof fn lemma_check_lines_start(checks: Seq<CheckResult>)
    requires
        checks.len() > 0,
    ensures
        check_lines(checks).len() > 0,
        check_lines(checks)[0] == '\n',
    decreases checks.len(),
{
    reveal_strlit("\n");
    if checks.len() > 1 {
        lemma_check_lines_start(checks.drop_last());
    } else {
        assert(check_lines(checks.drop_last()) =~= Seq::<char>::empty());
    }
}

/// One more check adds one line to the summary, after a line feed: its
/// name, status and latency in milliseconds, separated by dashes, and its
/// message in parentheses where it has one.
pub proof fn law_summary_one_more(overall: HealthStatus, checks: Seq<CheckResult>, c: CheckResult)
    ensures
        summary_text(overall, checks.push(c)) == summary_text(overall, checks) + "\n  "@ + c.name@
            + " — "@ + status_name(c.status) + " — "@ + decimal(c.latency_ms as nat) + "ms"@
            + match c.message {
            Some(m) => " ("@ + m@ + ")"@,
            None => Seq::empty(),
        },
{
    reveal_strlit("\n  ");
    reveal_strlit("\n");
    reveal_strlit("  ");
    assert(checks.push(c).drop_last() =~= checks);
    let text = summary_text(overall, checks.push(c));
    assert(text =~= summary_text(overall, checks) + "\n  "@ + c.name@ + " — "@ + status_name(
        c.status,
    ) + " — "@ + decimal(c.latency_ms as nat) + "ms"@ + match c.message {
        Some(m) => " ("@ + m@ + ")"@,
        None => Seq::empty(),
    });
}

} // verus!
