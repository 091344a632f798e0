# philiprehberger-healthcheck-client

Health checks for service dependencies, written in Verus. The library in
`src/` holds the logic, each function with its contract, proved by Verus:

- `status`: `HealthStatus` and how statuses combine into an overall status.
- `report`: `CheckResult`, `HealthReport`, its filters and its summary.
- `text`: white space, decimal numbers, `u16` parsing, words of a line.
- `http`: status codes of responses, URLs, requests, HTTP check results.
- `tcp`: TCP check results.
- `checker`: `Check`, `HealthChecker` and its builders, finding checks,
  running custom checks.
- `clock`: the Unix time.
- `laws`: properties proved across these functions.

`app/` is the I/O around it: the network checks with tokio, `check_all`,
`check_one`, and JSON output with serde.
