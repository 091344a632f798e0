//! Health checks for service dependencies: the statuses and reports they
//! produce, the parsing of URLs and HTTP status lines, and the checker that
//! holds the check definitions.
pub mod checker;
pub mod clock;
pub mod http;
pub mod laws;
pub mod report;
pub mod status;
pub mod tcp;
pub mod text;

pub use checker::{Check, HealthChecker};
pub use clock::now_unix;
pub use http::{parse_http_status, parse_url};
pub use report::{determine_overall, CheckResult, HealthReport};
pub use status::HealthStatus;
