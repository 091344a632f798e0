use philiprehberger_healthcheck_client::checker::{run_custom_check, Check};
use philiprehberger_healthcheck_client::{
    determine_overall, now_unix, parse_url, CheckResult, HealthChecker, HealthReport, HealthStatus,
};

fn result(name: &str, status: HealthStatus, latency_ms: u64, message: Option<&str>) -> CheckResult {
    CheckResult {
        name: name.to_string(),
        status,
        latency_ms,
        message: message.map(|m| m.to_string()),
        timestamp: 0,
    }
}

#[test]
fn test_overall_status_all_healthy() {
    let results = vec![
        result("a", HealthStatus::Healthy, 1, None),
        result("b", HealthStatus::Healthy, 2, None),
    ];
    assert_eq!(determine_overall(&results), HealthStatus::Healthy);
}

#[test]
fn test_overall_status_one_degraded() {
    let results = vec![
        result("a", HealthStatus::Healthy, 1, None),
        result("b", HealthStatus::Degraded, 2, None),
    ];
    assert_eq!(determine_overall(&results), HealthStatus::Degraded);
}

#[test]
fn test_overall_status_one_unhealthy() {
    let results = vec![
        result("a", HealthStatus::Healthy, 1, None),
        result("b", HealthStatus::Degraded, 2, None),
        result("c", HealthStatus::Unhealthy, 3, None),
    ];
    assert_eq!(determine_overall(&results), HealthStatus::Unhealthy);
}

#[test]
fn test_summary_output() {
    let report = HealthReport {
        overall: HealthStatus::Degraded,
        checks: vec![
            result("api", HealthStatus::Healthy, 10, None),
            result("cache", HealthStatus::Degraded, 250, Some("Slow response")),
        ],
        timestamp: 0,
    };

    let summary = report.summary();
    assert!(summary.contains("Overall: Degraded"));
    assert!(summary.contains("api"));
    assert!(summary.contains("cache"));
    assert!(summary.contains("Slow response"));
}

#[test]
fn test_custom_check() {
    let mut checker = HealthChecker::new();
    checker.add_custom("my-check", || CheckResult {
        name: String::new(),
        status: HealthStatus::Degraded,
        latency_ms: 42,
        message: Some("Running slow".to_string()),
        timestamp: now_unix(),
    });

    let result = match checker.find("my-check") {
        Some(Check::Custom { name, check_fn }) => Some(run_custom_check(name, check_fn.as_ref())),
        _ => None,
    };
    assert!(result.is_some());
    let result = result.unwrap();
    assert_eq!(result.status, HealthStatus::Degraded);
    assert_eq!(result.name, "my-check");
    assert_eq!(result.latency_ms, 42);
}

#[test]
fn test_check_one_not_found() {
    let checker = HealthChecker::new();
    let result = checker.find("nonexistent");
    assert!(result.is_none());
}

#[test]
fn test_unhealthy_checks_filter() {
    let report = HealthReport {
        overall: HealthStatus::Unhealthy,
        checks: vec![
            result("ok", HealthStatus::Healthy, 1, None),
            result("bad", HealthStatus::Unhealthy, 100, None),
            result("slow", HealthStatus::Degraded, 500, None),
        ],
        timestamp: 0,
    };

    let unhealthy = report.unhealthy_checks();
    assert_eq!(unhealthy.len(), 2);
    assert!(unhealthy.iter().any(|c| c.name == "bad"));
    assert!(unhealthy.iter().any(|c| c.name == "slow"));
}

#[test]
fn test_health_status_display() {
    assert_eq!(HealthStatus::Healthy.to_string(), "Healthy");
    assert_eq!(HealthStatus::Degraded.to_string(), "Degraded");
    assert_eq!(HealthStatus::Unhealthy.to_string(), "Unhealthy");
}

#[test]
fn test_is_degraded() {
    let healthy_report = HealthReport {
        overall: HealthStatus::Healthy,
        checks: vec![result("a", HealthStatus::Healthy, 1, None)],
        timestamp: 0,
    };
    assert!(!healthy_report.is_degraded());

    let degraded_report = HealthReport {
        overall: HealthStatus::Degraded,
        checks: vec![
            result("a", HealthStatus::Healthy, 1, None),
            result("b", HealthStatus::Degraded, 2, None),
        ],
        timestamp: 0,
    };
    assert!(degraded_report.is_degraded());

    let unhealthy_report = HealthReport {
        overall: HealthStatus::Unhealthy,
        checks: vec![result("a", HealthStatus::Unhealthy, 1, None)],
        timestamp: 0,
    };
    assert!(!unhealthy_report.is_degraded());
}

#[test]
fn test_failed_checks() {
    let report = HealthReport {
        overall: HealthStatus::Unhealthy,
        checks: vec![
            result("ok", HealthStatus::Healthy, 1, None),
            result("bad", HealthStatus::Unhealthy, 100, None),
            result("slow", HealthStatus::Degraded, 500, None),
            result("down", HealthStatus::Unhealthy, 200, None),
        ],
        timestamp: 0,
    };

    let failed = report.failed_checks();
    assert_eq!(failed.len(), 2);
    assert!(failed.iter().any(|c| c.name == "bad"));
    assert!(failed.iter().any(|c| c.name == "down"));
    // Degraded checks should NOT be included in failed_checks
    assert!(!failed.iter().any(|c| c.name == "slow"));
}

#[test]
fn test_failed_checks_empty_when_all_healthy() {
    let report = HealthReport {
        overall: HealthStatus::Healthy,
        checks: vec![
            result("a", HealthStatus::Healthy, 1, None),
            result("b", HealthStatus::Healthy, 2, None),
        ],
        timestamp: 0,
    };

    assert!(report.failed_checks().is_empty());
}

#[test]
fn test_parse_url() {
    let (is_https, host, port, path) = parse_url("http://localhost:8080/health").unwrap();
    assert!(!is_https);
    assert_eq!(host, "localhost");
    assert_eq!(port, 8080);
    assert_eq!(path, "/health");

    let (is_https, host, port, path) = parse_url("https://example.com/api").unwrap();
    assert!(is_https);
    assert_eq!(host, "example.com");
    assert_eq!(port, 443);
    assert_eq!(path, "/api");

    let (_, _, port, path) = parse_url("http://localhost").unwrap();
    assert_eq!(port, 80);
    assert_eq!(path, "/");
}
