//! HTTP checks: reading the status code from a response, taking a URL
//! apart, writing the request, and judging what came back.
use vstd::prelude::*;
use vstd::string::*;
use vstd::utf8::{decode_utf8, valid_utf8};

use crate::report::{CheckResult, CheckResultView};
use crate::status::HealthStatus;
use crate::text::{
    chars_before, chars_of, decimal, find_char, has_prefix, lemma_index_of_first_is,
    lemma_skip_spaces, lemma_word_then_rest, parse_u16_range, parse_u16_spec, push_decimal,
    skip_spaces, skip_word, string_of, words,
};

verus! {

/// The first line of `s`: the text before the first line feed.  A carriage
/// return before the line feed is white space and changes none of its words.
pub open spec fn first_line(s: Seq<char>) -> Seq<char> {
    match s.index_of_first('\n') {
        Some(i) => s.take(i),
        None => s,
    }
}

/// The status code that a response announces: the second word of its first
/// line, read as a number, where there is one.
pub open spec fn status_code_of(response: Seq<char>) -> Option<u16> {
    let w = words(first_line(response));
    if w.len() >= 2 {
        parse_u16_spec(w[1])
    } else {
        None
    }
}

/// Parse the HTTP status code from a raw HTTP response.
pub fn parse_http_status(response: &str) -> (r: Option<u16>)
    ensures
        r == status_code_of(response@),
{
    let line = chars_before(response, '\n');
    let ghost l = line@;
    let cs = line.as_slice();
    let end = line.len();
    let a = skip_spaces(cs, 0, end);
    proof {
        lemma_skip_spaces(l, 0, a as int);
    }
    if a == end {
        return None;
    }
    let b = skip_word(cs, a, end);
    let c = skip_spaces(cs, b, end);
    proof {
        lemma_word_then_rest(l, a as int, b as int);
        lemma_skip_spaces(l, b as int, c as int);
    }
    if c == end {
        assert(words(l) =~= seq![l.subrange(a as int, b as int)]);
        return None;
    }
    let d = skip_word(cs, c, end);
    proof {
        lemma_word_then_rest(l, c as int, d as int);
    }
    parse_u16_range(cs, c, d)
}

/// The parts of a URL: whether it is HTTPS, the host, the port and the path.
/// The URL must start with `https://` or `http://`; the authority runs to
/// the first `/`, which starts the path (`/` where there is none); a `:` in
/// the authority separates the host from a port that must parse as a `u16`;
/// without one the port is 443 for HTTPS and 80 for HTTP.
pub open spec fn url_parts(url: Seq<char>) -> Option<(bool, Seq<char>, u16, Seq<char>)> {
    let is_https = "https://"@.is_prefix_of(url);
    let is_http = "http://"@.is_prefix_of(url);
    if !is_https && !is_http {
        None
    } else {
        let rest = if is_https { url.skip(8) } else { url.skip(7) };
        let host_port = match rest.index_of_first('/') {
            Some(i) => rest.take(i),
            None => rest,
        };
        let path = match rest.index_of_first('/') {
            Some(i) => rest.skip(i),
            None => "/"@,
        };
        match host_port.index_of_first(':') {
            Some(i) => match parse_u16_spec(host_port.skip(i + 1)) {
                Some(port) => Some((is_https, host_port.take(i), port, path)),
                None => None,
            },
            None => Some((is_https, host_port, if is_https { 443u16 } else { 80u16 }, path)),
        }
    }
}

/// The view of what `parse_url` returns.
pub open spec fn parsed_view(r: Option<(bool, String, u16, String)>) -> Option<
    (bool, Seq<char>, u16, Seq<char>),
> {
    match r {
        Some((is_https, host, port, path)) => Some((is_https, host@, port, path@)),
        None => None,
    }
}

/// Parse host and port from a URL string.
pub fn parse_url(url: &str) -> (r: Option<(bool, String, u16, String)>)
    ensures
        parsed_view(r) == url_parts(url@),
{
    proof {
        reveal_strlit("https://");
        reveal_strlit("http://");
        reveal_strlit("/");
    }
    let chars = chars_of(url);
    let cs = chars.as_slice();
    let n = chars.len();
    let is_https = has_prefix(cs, "https://");
    let start: usize = if is_https {
        8
    } else if has_prefix(cs, "http://") {
        7
    } else {
        return None;
    };
    let ghost rest = url@.skip(start as int);
    let slash = find_char(cs, start, n, '/');
    proof {
        lemma_index_of_first_is(rest, '/', slash - start);
    }
    let ghost host_port = match rest.index_of_first('/') {
        Some(i) => rest.take(i),
        None => rest,
    };
    assert(host_port =~= url@.subrange(start as int, slash as int));
    let path = if slash < n {
        let p = string_of(cs, slash, n);
        assert(p@ =~= rest.skip(slash - start));
        p
    } else {
        "/".to_string()
    };
    let colon = find_char(cs, start, slash, ':');
    proof {
        lemma_index_of_first_is(host_port, ':', colon - start);
    }
    if colon < slash {
        assert(url@.subrange(colon + 1, slash as int) =~= host_port.skip(colon - start + 1));
        match parse_u16_range(cs, colon + 1, slash) {
            Some(port) => {
                let host = string_of(cs, start, colon);
                assert(host@ =~= host_port.take(colon - start));
                Some((is_https, host, port, path))
            },
            None => None,
        }
    } else {
        let port: u16 = if is_https {
            443
        } else {
            80
        };
        Some((is_https, string_of(cs, start, slash), port, path))
    }
}

/// Where to connect for an HTTP check, and what to send there.
pub struct HttpRequest {
    /// The `host:port` to connect to.
    pub address: String,
    /// The request to write once connected.
    pub request: String,
}

/// The `host:port` address of a host and a port.
pub open spec fn address_text(host: Seq<char>, port: u16) -> Seq<char> {
    host + ":"@ + decimal(port as nat)
}

/// The GET request for `path` on `host`, asking the server to close the
/// connection after its response.
pub open spec fn request_text(host: Seq<char>, path: Seq<char>) -> Seq<char> {
    "GET "@ + path + " HTTP/1.1\r\nHost: "@ + host + "\r\nConnection: close\r\n\r\n"@
}

/// The `host:port` address of a host and a port.
pub fn address_of(host: &str, port: u16) -> (a: String)
    ensures
        a@ == address_text(host@, port),
{
    let mut a = host.to_string();
    a.append(":");
    push_decimal(&mut a, port as u64);
    a
}

/// The address and request of an HTTP check of `url`; `None` where the URL
/// does not parse.
pub fn prepare_http_request(url: &str) -> (r: Option<HttpRequest>)
    ensures
        match url_parts(url@) {
            Some((_, host, port, path)) => r matches Some(q) && q.address@ == address_text(host, port)
                && q.request@ == request_text(host, path),
            None => r is None,
        },
{
    match parse_url(url) {
        Some((_, host, port, path)) => {
            let address = address_of(host.as_str(), port);
            let mut request = "GET ".to_string();
            request.append(path.as_str());
            request.append(" HTTP/1.1\r\nHost: ");
            request.append(host.as_str());
            request.append("\r\nConnection: close\r\n\r\n");
            Some(HttpRequest { address, request })
        },
        None => None,
    }
}

/// Names what `String::from_utf8_lossy` makes of a sequence of bytes.
pub uninterp spec fn lossy_text(bytes: Seq<u8>) -> Seq<char>;

/// Decodes `bytes` as UTF-8, putting U+FFFD in place of each invalid
/// sequence (`String::from_utf8_lossy`).  Valid UTF-8 decodes to exactly the
/// text it encodes.
#[verifier::external_body]
fn decode_lossy(bytes: &[u8]) -> (s: String)
    ensures
        s@ == lossy_text(bytes@),
        valid_utf8(bytes@) ==> s@ == decode_utf8(bytes@),
{
    String::from_utf8_lossy(bytes).into_owned()
}

/// What came of the attempt to reach the server of an HTTP check.
pub enum HttpOutcome {
    /// The server answered with these bytes before closing the connection.
    Response(Vec<u8>),
    /// Connecting, writing or reading failed, with this error text.
    ConnectionError(String),
    /// The exchange did not end within the timeout.
    Timeout,
}

/// The status and message of an HTTP check whose response reads `response`.
pub open spec fn response_verdict(expected: u16, response: Seq<char>) -> (HealthStatus, Seq<char>) {
    match status_code_of(response) {
        Some(code) => if code == expected {
            (HealthStatus::Healthy, "HTTP "@ + decimal(code as nat))
        } else {
            (
                HealthStatus::Unhealthy,
                "Expected HTTP "@ + decimal(expected as nat) + ", got "@ + decimal(code as nat),
            )
        },
        None => (HealthStatus::Unhealthy, "Could not parse HTTP response"@),
    }
}

/// The status and message of an HTTP check with the given outcome.
pub open spec fn http_verdict(expected: u16, outcome: HttpOutcome) -> (HealthStatus, Seq<char>) {
    match outcome {
        HttpOutcome::Response(bytes) => response_verdict(expected, lossy_text(bytes@)),
        HttpOutcome::ConnectionError(e) => (HealthStatus::Unhealthy, "Connection error: "@ + e@),
        HttpOutcome::Timeout => (HealthStatus::Unhealthy, "Timeout"@),
    }
}

/// The result of an HTTP check whose URL does not parse.
pub fn invalid_url_result(name: &str, latency_ms: u64, timestamp: u64) -> (r: CheckResult)
    ensures
        r@ == (CheckResultView {
            name: name@,
            status: HealthStatus::Unhealthy,
            latency_ms,
            message: Some("Invalid URL"@),
            timestamp,
        }),
{
    CheckResult {
        name: name.to_string(),
        status: HealthStatus::Unhealthy,
        latency_ms,
        message: Some("Invalid URL".to_string()),
        timestamp,
    }
}

/// The result of an HTTP check that expected `expected_status`, from what
/// came of it: healthy exactly when the response's status code is the one
/// expected.
pub fn http_check_result(
    name: &str,
    expected_status: u16,
    latency_ms: u64,
    timestamp: u64,
    outcome: HttpOutcome,
) -> (r: CheckResult)
    ensures
        r@ == (CheckResultView {
            name: name@,
            status: http_verdict(expected_status, outcome).0,
            latency_ms,
            message: Some(http_verdict(expected_status, outcome).1),
            timestamp,
        }),
        outcome matches HttpOutcome::Response(b) ==> (valid_utf8(b@) ==> lossy_text(b@)
            == decode_utf8(b@)),
{
    let (status, message) = match outcome {
        HttpOutcome::Response(bytes) => {
            let text = decode_lossy(bytes.as_slice());
            match parse_http_status(text.as_str()) {
                Some(code) => if code == expected_status {
                    let mut m = "HTTP ".to_string();
                    push_decimal(&mut m, code as u64);
                    (HealthStatus::Healthy, m)
                } else {
                    let mut m = "Expected HTTP ".to_string();
                    push_decimal(&mut m, expected_status as u64);
                    m.append(", got ");
                    push_decimal(&mut m, code as u64);
                    (HealthStatus::Unhealthy, m)
                },
                None => (HealthStatus::Unhealthy, "Could not parse HTTP response".to_string()),
            }
        },
        HttpOutcome::ConnectionError(e) => {
            let mut m = "Connection error: ".to_string();
            m.append(e.as_str());
            (HealthStatus::Unhealthy, m)
        },
        HttpOutcome::Timeout => (HealthStatus::Unhealthy, "Timeout".to_string()),
    };
    CheckResult { name: name.to_string(), status, latency_ms, message: Some(message), timestamp }
}

} // verus!
