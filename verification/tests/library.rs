use philiprehberger_healthcheck_client::clock::unix_seconds;
use std::time::{Duration, SystemTime, UNIX_EPOCH};
use philiprehberger_healthcheck_client::checker::{run_custom_check, Check};
use philiprehberger_healthcheck_client::http::{
    address_of, http_check_result, invalid_url_result, prepare_http_request, HttpOutcome,
};
use philiprehberger_healthcheck_client::tcp::{tcp_check_result, TcpOutcome};
use philiprehberger_healthcheck_client::text::{
    chars_before, chars_of, find_char, has_prefix, parse_u16_range, push_decimal, string_of,
};
use philiprehberger_healthcheck_client::{
    determine_overall, now_unix, status::apply_threshold, parse_http_status, parse_url, CheckResult, HealthChecker,
    HealthReport, HealthStatus,
};

fn result(name: &str, status: HealthStatus, latency_ms: u64, message: Option<&str>) -> CheckResult {
    CheckResult {
        name: name.to_string(),
        status,
        latency_ms,
        message: message.map(|m| m.to_string()),
        timestamp: 7,
    }
}

#[test]
fn overall_of_no_checks_is_healthy() {
    assert_eq!(determine_overall(&[]), HealthStatus::Healthy);
}

#[test]
fn overall_takes_the_worst_in_any_order() {
    let a = vec![
        result("a", HealthStatus::Unhealthy, 1, None),
        result("b", HealthStatus::Degraded, 1, None),
        result("c", HealthStatus::Healthy, 1, None),
    ];
    let b = vec![
        result("c", HealthStatus::Healthy, 1, None),
        result("b", HealthStatus::Degraded, 1, None),
        result("a", HealthStatus::Unhealthy, 1, None),
    ];
    assert_eq!(determine_overall(&a), HealthStatus::Unhealthy);
    assert_eq!(determine_overall(&b), HealthStatus::Unhealthy);
    assert_eq!(determine_overall(&a[1..]), HealthStatus::Degraded);
}

#[test]
fn overall_degraded_needs_a_passing_check() {
    let mut checks = vec![result("a", HealthStatus::Degraded, 1, None)];
    assert_eq!(determine_overall(&checks), HealthStatus::Unhealthy);
    checks.push(result("b", HealthStatus::Degraded, 1, None));
    assert_eq!(determine_overall(&checks), HealthStatus::Unhealthy);
    checks.push(result("c", HealthStatus::Healthy, 1, None));
    assert_eq!(determine_overall(&checks), HealthStatus::Degraded);
    checks.push(result("d", HealthStatus::Unhealthy, 1, None));
    assert_eq!(determine_overall(&checks), HealthStatus::Unhealthy);
}

#[test]
fn threshold_steps() {
    assert_eq!(apply_threshold(0, 3, HealthStatus::Unhealthy), (1, HealthStatus::Degraded));
    assert_eq!(apply_threshold(1, 3, HealthStatus::Unhealthy), (2, HealthStatus::Degraded));
    assert_eq!(apply_threshold(2, 3, HealthStatus::Unhealthy), (3, HealthStatus::Unhealthy));
    assert_eq!(apply_threshold(7, 3, HealthStatus::Unhealthy), (8, HealthStatus::Unhealthy));
    assert_eq!(apply_threshold(2, 3, HealthStatus::Healthy), (0, HealthStatus::Healthy));
    assert_eq!(apply_threshold(2, 3, HealthStatus::Degraded), (0, HealthStatus::Degraded));
    assert_eq!(apply_threshold(0, 1, HealthStatus::Unhealthy), (1, HealthStatus::Unhealthy));
    assert_eq!(apply_threshold(0, 0, HealthStatus::Unhealthy), (1, HealthStatus::Unhealthy));
    assert_eq!(apply_threshold(u32::MAX, 5, HealthStatus::Unhealthy), (u32::MAX, HealthStatus::Unhealthy));
}

#[test]
fn recorded_failures_become_unhealthy_at_the_threshold() {
    let mut checker = HealthChecker::new();
    checker.add_tcp("db", "127.0.0.1", 1).add_tcp("cache", "127.0.0.1", 2).failure_threshold(3);
    let refused = || result("db", HealthStatus::Unhealthy, 1, Some("Connection refused: x"));
    let first = checker.record_result(0, refused());
    assert_eq!(first.status, HealthStatus::Degraded);
    assert_eq!(first.message.as_deref(), Some("Connection refused: x"));
    assert_eq!(checker.record_result(0, refused()).status, HealthStatus::Degraded);
    assert_eq!(checker.record_result(1, result("cache", HealthStatus::Unhealthy, 1, None)).status, HealthStatus::Degraded);
    assert_eq!(checker.record_result(0, refused()).status, HealthStatus::Unhealthy);
    assert_eq!(checker.record_result(0, result("db", HealthStatus::Healthy, 1, None)).status, HealthStatus::Healthy);
    assert_eq!(checker.record_result(0, refused()).status, HealthStatus::Degraded);

    let mut default = HealthChecker::new();
    default.add_tcp("db", "127.0.0.1", 1);
    assert_eq!(default.record_result(0, refused()).status, HealthStatus::Unhealthy);
}

#[test]
fn report_from_results_derives_overall() {
    let report = HealthReport::from_results(
        vec![result("a", HealthStatus::Healthy, 1, None), result("b", HealthStatus::Degraded, 2, None)],
        99,
    );
    assert_eq!(report.overall, HealthStatus::Degraded);
    assert_eq!(report.timestamp, 99);
    assert_eq!(report.checks.len(), 2);
    assert!(report.is_degraded());
    assert!(!report.is_healthy());
    assert!(report.failed_checks().is_empty());
    assert_eq!(report.unhealthy_checks().len(), 1);

    let healthy = HealthReport::from_results(vec![result("a", HealthStatus::Healthy, 1, None)], 1);
    assert!(healthy.is_healthy());
    assert!(healthy.unhealthy_checks().is_empty());
}

#[test]
fn healthy_and_unhealthy_checks_partition_the_report() {
    let report = HealthReport {
        overall: HealthStatus::Unhealthy,
        checks: vec![
            result("ok", HealthStatus::Healthy, 1, None),
            result("bad", HealthStatus::Unhealthy, 100, None),
            result("slow", HealthStatus::Degraded, 500, None),
            result("fine", HealthStatus::Healthy, 3, None),
        ],
        timestamp: 0,
    };
    let healthy = report.healthy_checks();
    let unhealthy = report.unhealthy_checks();
    let failed = report.failed_checks();
    assert_eq!(healthy.len() + unhealthy.len(), report.checks.len());
    assert_eq!(healthy.iter().map(|c| c.name.as_str()).collect::<Vec<_>>(), vec!["ok", "fine"]);
    assert_eq!(unhealthy.iter().map(|c| c.name.as_str()).collect::<Vec<_>>(), vec!["bad", "slow"]);
    assert_eq!(failed.iter().map(|c| c.name.as_str()).collect::<Vec<_>>(), vec!["bad"]);
}

#[test]
fn summary_is_exact() {
    let report = HealthReport {
        overall: HealthStatus::Degraded,
        checks: vec![
            result("api", HealthStatus::Healthy, 10, None),
            result("cache", HealthStatus::Degraded, 250, Some("Slow response")),
        ],
        timestamp: 0,
    };
    assert_eq!(
        report.summary(),
        "Overall: Degraded\n  api — Healthy — 10ms\n  cache — Degraded — 250ms (Slow response)"
    );
    let empty = HealthReport { overall: HealthStatus::Healthy, checks: vec![], timestamp: 0 };
    assert_eq!(empty.summary(), "Overall: Healthy");
}

#[test]
fn decimal_digits() {
    let mut s = "n=".to_string();
    push_decimal(&mut s, 0);
    assert_eq!(s, "n=0");
    let mut s = String::new();
    push_decimal(&mut s, 18446744073709551615);
    assert_eq!(s, "18446744073709551615");
    let mut s = String::new();
    push_decimal(&mut s, 1005);
    assert_eq!(s, "1005");
}

#[test]
fn u16_parsing_matches_std() {
    for text in ["0", "65535", "65536", "+8080", "+", "-1", "", "08", "12a", "99999999999999999999", "٣"] {
        let cs: Vec<char> = text.chars().collect();
        assert_eq!(parse_u16_range(&cs, 0, cs.len()), text.parse::<u16>().ok(), "{:?}", text);
    }
    let cs: Vec<char> = "ab443cd".chars().collect();
    assert_eq!(parse_u16_range(&cs, 2, 5), Some(443));
}

#[test]
fn status_code_parsing() {
    assert_eq!(parse_http_status("HTTP/1.1 200 OK\r\nContent-Length: 2\r\n\r\nok"), Some(200));
    assert_eq!(parse_http_status("HTTP/1.1 503 Service Unavailable"), Some(503));
    assert_eq!(parse_http_status("  HTTP/1.0\t\t404   Not Found"), Some(404));
    assert_eq!(parse_http_status("HTTP/1.1 +204 No Content"), Some(204));
    assert_eq!(parse_http_status(""), None);
    assert_eq!(parse_http_status("HTTP/1.1"), None);
    assert_eq!(parse_http_status("HTTP/1.1\r\n200 OK"), None);
    assert_eq!(parse_http_status("HTTP/1.1 abc"), None);
    assert_eq!(parse_http_status("HTTP/1.1 70000 Big"), None);
    assert_eq!(parse_http_status("\nHTTP/1.1 200 OK"), None);
    assert_eq!(parse_http_status("HTTP/1.1\u{3000}201\u{a0}Created"), Some(201));
}

#[test]
fn url_parsing_edge_cases() {
    assert_eq!(parse_url("ftp://example.com"), None);
    assert_eq!(parse_url("localhost:80"), None);
    assert_eq!(parse_url("http://host:port/x"), None);
    assert_eq!(parse_url("http://host:70000/"), None);
    assert_eq!(parse_url("http://host:/"), None);
    assert_eq!(
        parse_url("https://a.example:8443"),
        Some((true, "a.example".to_string(), 8443, "/".to_string()))
    );
    assert_eq!(
        parse_url("http://h:+81/x:y/z"),
        Some((false, "h".to_string(), 81, "/x:y/z".to_string()))
    );
    assert_eq!(parse_url("http://"), Some((false, String::new(), 80, "/".to_string())));
    assert_eq!(
        parse_url("https://ünï.example/päth"),
        Some((true, "ünï.example".to_string(), 443, "/päth".to_string()))
    );
}

#[test]
fn text_searches() {
    let cs = chars_of("abc/def/");
    assert_eq!(find_char(&cs, 0, cs.len(), '/'), 3);
    assert_eq!(find_char(&cs, 4, cs.len(), '/'), 7);
    assert_eq!(find_char(&cs, 0, 3, '/'), 3);
    assert_eq!(string_of(&cs, 4, 7), "def");
    assert_eq!(chars_before("ab\ncd\n", '\n'), vec!['a', 'b']);
    assert_eq!(chars_before("äb", '\n'), vec!['ä', 'b']);
    assert!(has_prefix(&chars_of("https://x"), "https://"));
    assert!(!has_prefix(&chars_of("http://x"), "https://"));
    assert!(!has_prefix(&chars_of("http"), "http://"));
}

#[test]
fn http_request_is_written_from_the_url() {
    let req = prepare_http_request("http://127.0.0.1:8080/health").unwrap();
    assert_eq!(req.address, "127.0.0.1:8080");
    assert_eq!(req.request, "GET /health HTTP/1.1\r\nHost: 127.0.0.1\r\nConnection: close\r\n\r\n");
    let req = prepare_http_request("https://example.com").unwrap();
    assert_eq!(req.address, "example.com:443");
    assert_eq!(req.request, "GET / HTTP/1.1\r\nHost: example.com\r\nConnection: close\r\n\r\n");
    assert!(prepare_http_request("example.com").is_none());
    assert_eq!(address_of("db", 5432), "db:5432");
}

#[test]
fn http_results() {
    let ok = http_check_result(
        "api",
        200,
        12,
        34,
        HttpOutcome::Response(b"HTTP/1.1 200 OK\r\nContent-Length: 2\r\n\r\nok".to_vec()),
    );
    assert_eq!(ok.name, "api");
    assert_eq!(ok.status, HealthStatus::Healthy);
    assert_eq!(ok.latency_ms, 12);
    assert_eq!(ok.timestamp, 34);
    assert_eq!(ok.message.as_deref(), Some("HTTP 200"));

    let wrong = http_check_result("api", 200, 1, 2, HttpOutcome::Response(b"HTTP/1.1 503 OK\r\n".to_vec()));
    assert_eq!(wrong.status, HealthStatus::Unhealthy);
    assert_eq!(wrong.message.as_deref(), Some("Expected HTTP 200, got 503"));

    let garbage = http_check_result("api", 200, 1, 2, HttpOutcome::Response(vec![0xff, 0xfe]));
    assert_eq!(garbage.status, HealthStatus::Unhealthy);
    assert_eq!(garbage.message.as_deref(), Some("Could not parse HTTP response"));

    let lossy = http_check_result("api", 204, 1, 2, HttpOutcome::Response(b"\xffHTTP 204 x".to_vec()));
    assert_eq!(lossy.status, HealthStatus::Healthy);
    assert_eq!(lossy.message.as_deref(), Some("HTTP 204"));

    let refused =
        http_check_result("api", 200, 1, 2, HttpOutcome::ConnectionError("connection refused".to_string()));
    assert_eq!(refused.status, HealthStatus::Unhealthy);
    assert_eq!(refused.message.as_deref(), Some("Connection error: connection refused"));

    let late = http_check_result("api", 200, 5000, 2, HttpOutcome::Timeout);
    assert_eq!(late.status, HealthStatus::Unhealthy);
    assert_eq!(late.message.as_deref(), Some("Timeout"));

    let invalid = invalid_url_result("api", 0, 3);
    assert_eq!(invalid.status, HealthStatus::Unhealthy);
    assert_eq!(invalid.message.as_deref(), Some("Invalid URL"));
    assert_eq!(invalid.timestamp, 3);
}

#[test]
fn tcp_results() {
    let up = tcp_check_result("db", "127.0.0.1:5432", 3, 4, TcpOutcome::Connected);
    assert_eq!(up.name, "db");
    assert_eq!(up.status, HealthStatus::Healthy);
    assert_eq!(up.message.as_deref(), Some("TCP connection to 127.0.0.1:5432 established"));
    let down = tcp_check_result("db", "127.0.0.1:5432", 3, 4, TcpOutcome::Failed("refused".to_string()));
    assert_eq!(down.status, HealthStatus::Unhealthy);
    assert_eq!(down.message.as_deref(), Some("Connection refused: refused"));
    let late = tcp_check_result("db", "127.0.0.1:5432", 3, 4, TcpOutcome::Timeout);
    assert_eq!(late.status, HealthStatus::Unhealthy);
    assert_eq!(late.message.as_deref(), Some("Timeout"));
}

#[test]
fn builders_append_checks_in_order() {
    let mut checker = HealthChecker::default();
    checker
        .add_http("api", "http://localhost:8080/health")
        .add_http_with("web", "https://example.com", 204, 3000)
        .add_tcp("database", "127.0.0.1", 5432)
        .add_tcp_with("redis", "127.0.0.1", 6379, 2000)
        .failure_threshold(3);
    let names: Vec<&str> = checker.checks().iter().map(|c| c.name().as_str()).collect();
    assert_eq!(names, vec!["api", "web", "database", "redis"]);
    match &checker.checks()[0] {
        Check::Http { url, expected_status, timeout_ms, .. } => {
            assert_eq!(url, "http://localhost:8080/health");
            assert_eq!(*expected_status, 200);
            assert_eq!(*timeout_ms, 5000);
        },
        _ => panic!("expected an HTTP check"),
    }
    match &checker.checks()[1] {
        Check::Http { expected_status, timeout_ms, .. } => {
            assert_eq!(*expected_status, 204);
            assert_eq!(*timeout_ms, 3000);
        },
        _ => panic!("expected an HTTP check"),
    }
    match &checker.checks()[2] {
        Check::Tcp { host, port, timeout_ms, .. } => {
            assert_eq!(host, "127.0.0.1");
            assert_eq!(*port, 5432);
            assert_eq!(*timeout_ms, 5000);
        },
        _ => panic!("expected a TCP check"),
    }
    match &checker.checks()[3] {
        Check::Tcp { port, timeout_ms, .. } => {
            assert_eq!(*port, 6379);
            assert_eq!(*timeout_ms, 2000);
        },
        _ => panic!("expected a TCP check"),
    }
}

#[test]
fn find_gives_the_first_check_of_a_name() {
    let mut checker = HealthChecker::new();
    checker.add_tcp("db", "first", 1).add_tcp("db", "second", 2).add_http("api", "http://x");
    match checker.find("db") {
        Some(Check::Tcp { host, .. }) => assert_eq!(host, "first"),
        _ => panic!("expected the first TCP check"),
    }
    assert!(matches!(checker.find("api"), Some(Check::Http { .. })));
    assert!(checker.find("other").is_none());
    assert_eq!(checker.position("db"), Some(0));
    assert_eq!(checker.position("api"), Some(2));
    assert_eq!(checker.position("other"), None);

    let mut custom = HealthChecker::new();
    custom
        .add_custom("same", || result("x", HealthStatus::Degraded, 1, None))
        .add_custom("same", || result("x", HealthStatus::Healthy, 2, None));
    let r = match custom.find("same") {
        Some(Check::Custom { name, check_fn }) => run_custom_check(name, check_fn.as_ref()),
        _ => panic!("expected a custom check"),
    };
    assert_eq!(r.status, HealthStatus::Degraded);
    assert_eq!(r.latency_ms, 1);
}

#[test]
fn custom_check_result_takes_the_check_name() {
    let mut checker = HealthChecker::new();
    checker.add_custom("disk-space", || CheckResult {
        name: "ignored".to_string(),
        status: HealthStatus::Healthy,
        latency_ms: 0,
        message: Some("80% free".to_string()),
        timestamp: 5,
    });
    let r = match checker.find("disk-space") {
        Some(Check::Custom { name, check_fn }) => run_custom_check(name, check_fn.as_ref()),
        _ => panic!("expected a custom check"),
    };
    assert_eq!(r.name, "disk-space");
    assert_eq!(r.status, HealthStatus::Healthy);
    assert_eq!(r.message.as_deref(), Some("80% free"));
    assert_eq!(r.timestamp, 5);
}

#[test]
fn clock_reads_after_2020() {
    assert!(now_unix() > 1_577_836_800);
}

#[test]
fn long_responses_are_read_in_one_pass() {
    let mut body = "HTTP/1.1 200 OK".to_string();
    body.push_str(&"x".repeat(2_000_000));
    assert_eq!(parse_http_status(&body), Some(200));
    let flat = "y".repeat(2_000_000);
    assert_eq!(parse_http_status(&flat), None);
    let ok = http_check_result("big", 200, 1, 1, HttpOutcome::Response(body.into_bytes()));
    assert_eq!(ok.status, HealthStatus::Healthy);
}

#[test]
fn unix_seconds_of_elapsed_time() {
    let elapsed = Duration::from_millis(5_999);
    assert_eq!(unix_seconds(Some(elapsed.as_secs())), 5);
    let before_epoch = UNIX_EPOCH.duration_since(SystemTime::now());
    assert!(before_epoch.is_err());
    assert_eq!(unix_seconds(before_epoch.ok().map(|d| d.as_secs())), 0);
}
