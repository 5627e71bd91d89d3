//! Errors of provider calls: what an HTTP failure means and when to try again.

use crate::json;
use crate::json::{Json, Tree};
use crate::text;
use vstd::prelude::*;

verus! {

/// A response header. The value is absent where it is not visible ASCII text.
#[derive(Debug, Clone, PartialEq)]
pub struct Header {
    pub name: String,
    pub value: Option<String>,
}

/// HTTP error returned by a provider after the remote API responded with a non-success status.
#[derive(Debug, Clone)]
pub struct ProviderHttpError {
    pub provider: String,
    pub url: String,
    pub status: u16,
    pub body: String,
    pub headers: Vec<Header>,
    pub retry_delay_ms: Option<u64>,
}

/// A delay as a response body gives it: a decimal number and the unit it counts.
#[derive(Debug, Clone, PartialEq)]
pub struct RetryDelayText {
    pub number: String,
    pub unit: DelayUnit,
}

/// The unit of a delay.
#[derive(Debug, Clone, Copy, PartialEq, Eq, Structural)]
pub enum DelayUnit {
    Hours,
    Minutes,
    Seconds,
}

/// Error types for LLM provider operations.
#[derive(Debug)]
pub enum ProviderError {
    NetworkError(String),
    AuthenticationError(String),
    RateLimitError { message: String, retry_delay_ms: Option<u64> },
    InvalidRequest(String),
    ApiError(String),
    UnexpectedError(String),
}

/// The mathematical value of a provider error.
pub enum Failure {
    Network(Seq<char>),
    Authentication(Seq<char>),
    RateLimit(Seq<char>, Option<u64>),
    Invalid(Seq<char>),
    Api(Seq<char>),
    Unexpected(Seq<char>),
}

impl View for ProviderError {
    type V = Failure;

    open spec fn view(&self) -> Failure {
        match *self {
            ProviderError::NetworkError(m) => Failure::Network(m@),
            ProviderError::AuthenticationError(m) => Failure::Authentication(m@),
            ProviderError::RateLimitError { message, retry_delay_ms } => Failure::RateLimit(
                message@,
                retry_delay_ms,
            ),
            ProviderError::InvalidRequest(m) => Failure::Invalid(m@),
            ProviderError::ApiError(m) => Failure::Api(m@),
            ProviderError::UnexpectedError(m) => Failure::Unexpected(m@),
        }
    }
}

// ---------------------------------------------------------------------------
// Delays
// ---------------------------------------------------------------------------

/// The number and the unit of a delay text such as `5s`.
pub open spec fn delay_parts(t: Seq<char>) -> Option<(Seq<char>, DelayUnit)> {
    let d = text::trimmed(t);
    if d.len() > 0 && d.last() == 'h' {
        Some((text::without_tail(d, 'h'), DelayUnit::Hours))
    } else if d.len() > 0 && d.last() == 'm' {
        Some((text::without_tail(d, 'm'), DelayUnit::Minutes))
    } else if d.len() > 0 && d.last() == 's' {
        Some((text::without_tail(d, 's'), DelayUnit::Seconds))
    } else {
        None
    }
}

/// The first delay in a list of error details, from `i` on. A detail without a
/// text under `@type`, or a retry detail without `retryDelay`, ends the search.
pub open spec fn details_delay(details: Seq<Tree>, i: int) -> Option<(Seq<char>, DelayUnit)>
    decreases details.len() - i,
{
    if i < 0 || i >= details.len() {
        None
    } else {
        match details[i].get("@type"@) {
            Some(Tree::Str(t)) => if t == "type.googleapis.com/google.rpc.RetryInfo"@ {
                match details[i].get("retryDelay"@) {
                    None => None,
                    Some(Tree::Str(d)) => match delay_parts(d) {
                        Some(p) => Some(p),
                        None => details_delay(details, i + 1),
                    },
                    Some(_) => details_delay(details, i + 1),
                }
            } else {
                details_delay(details, i + 1)
            },
            _ => None,
        }
    }
}

/// The delay in the `error.details` of a response body.
pub open spec fn body_delay(body: Option<Tree>) -> Option<(Seq<char>, DelayUnit)> {
    match body {
        None => None,
        Some(b) => match b.get("error"@) {
            None => None,
            Some(e) => match e.get("details"@) {
                Some(Tree::Arr(details)) => details_delay(details, 0),
                _ => None,
            },
        },
    }
}

/// The text of the first header with a name.
pub open spec fn header_text(headers: Seq<Header>, name: Seq<char>) -> Option<Seq<char>>
    decreases headers.len(),
{
    if headers.len() == 0 {
        None
    } else if headers[0].name@ == name {
        text::opt(headers[0].value)
    } else {
        header_text(headers.drop_first(), name)
    }
}

/// A number that a header gives.
pub open spec fn header_number(headers: Seq<Header>, name: Seq<char>) -> Option<u64> {
    match header_text(headers, name) {
        Some(t) => text::parsed_u64(t),
        None => None,
    }
}

/// The moment, in seconds since the epoch, at which the limit is lifted.
pub open spec fn reset_moment(headers: Seq<Header>) -> Option<u64> {
    match header_text(headers, "x-ratelimit-reset"@) {
        Some(t) => text::parsed_u64(t),
        None => header_number(headers, "ratelimit-reset"@),
    }
}

/// The delay in seconds that the headers ask for, at the moment `now`.
pub open spec fn header_delay_secs(headers: Seq<Header>, now: Option<u64>) -> Option<u64> {
    match header_number(headers, "retry-after"@) {
        Some(secs) => Some(secs),
        None => match (reset_moment(headers), now) {
            (Some(at), Some(t)) => Some(
                if at >= t {
                    (at - t) as u64
                } else {
                    0
                },
            ),
            _ => None,
        },
    }
}

/// The delay that the headers ask for is small enough to count in milliseconds.
pub open spec fn header_delay_fits(headers: Seq<Header>, now: Option<u64>) -> bool {
    header_delay_secs(headers, now) matches Some(s) ==> s * 1000 <= u64::MAX
}

/// The delay in milliseconds that the headers ask for.
pub open spec fn header_delay(headers: Seq<Header>, now: Option<u64>) -> Option<u64> {
    match header_delay_secs(headers, now) {
        Some(s) => Some((s * 1000) as u64),
        None => None,
    }
}

/// The body as an error shows it: whole up to 1024 bytes, cut and marked else.
pub open spec fn shown_body(body: Seq<char>) -> Seq<char> {
    if text::byte_len(body) > 1024 {
        text::head_bytes(body, 1024) + "... [truncated, total "@ + text::decimal(
            text::byte_len(body),
        ) + " bytes]"@
    } else {
        body
    }
}

/// What `reqwest::StatusCode` displays for a status: the code and its canonical
/// reason.
pub uninterp spec fn status_line(code: u16) -> Seq<char>;

/// Calls `reqwest::StatusCode::from_u16` and the `to_string` of the status. Every
/// code from 100 to 999 is a status; the text is a function of the code alone.
#[verifier::external_body]
fn status_text(code: u16) -> (r: String)
    requires
        100 <= code <= 999,
    ensures
        r@ == status_line(code),
{
    reqwest::StatusCode::from_u16(code).map(|s| s.to_string()).unwrap_or_default()
}

/// The delay in a response body that was read as JSON.
pub fn parse_retry_delay_from_body(body: &Option<Json>) -> (r: Option<RetryDelayText>)
    ensures
        r matches Some(d) ==> body_delay(crate::providers::types::opt_tree(*body)) == Some(
            (d.number@, d.unit),
        ),
        r is None ==> body_delay(crate::providers::types::opt_tree(*body)) is None,
{
    let details = match body {
        None => return None,
        Some(b) => match b.get("error") {
            None => return None,
            Some(e) => match e.get("details") {
                None => return None,
                Some(d) => match d.as_array() {
                    None => return None,
                    Some(a) => a,
                },
            },
        },
    };
    let ghost ts = json::trees(details@);
    let mut i: usize = 0;
    while i < details.len()
        invariant
            i <= details@.len(),
            ts == json::trees(details@),
            body_delay(crate::providers::types::opt_tree(*body)) == details_delay(ts, i as int),
        decreases details@.len() - i,
    {
        let detail = &details[i];
        assert(ts[i as int] == detail@);
        let kind = match detail.get("@type") {
            None => return None,
            Some(k) => match k.as_str() {
                None => return None,
                Some(s) => s,
            },
        };
        if text::same(kind.as_str(), "type.googleapis.com/google.rpc.RetryInfo") {
            let delay = match detail.get("retryDelay") {
                None => return None,
                Some(d) => d,
            };
            if let Some(t) = delay.as_str() {
                let d = text::trim(t.as_str());
                if ends_in(d.as_str(), 'h') {
                    return Some(
                        RetryDelayText {
                            number: text::trim_tail(d.as_str(), 'h'),
                            unit: DelayUnit::Hours,
                        },
                    );
                }
                if ends_in(d.as_str(), 'm') {
                    return Some(
                        RetryDelayText {
                            number: text::trim_tail(d.as_str(), 'm'),
                            unit: DelayUnit::Minutes,
                        },
                    );
                }
                if ends_in(d.as_str(), 's') {
                    return Some(
                        RetryDelayText {
                            number: text::trim_tail(d.as_str(), 's'),
                            unit: DelayUnit::Seconds,
                        },
                    );
                }
            }
        }
        i = i + 1;
    }
    None
}

/// Whether a text ends in a character.
fn ends_in(s: &str, c: char) -> (r: bool)
    ensures
        r == (s@.len() > 0 && s@.last() == c),
{
    let v = text::chars_of(s);
    v.len() > 0 && v[v.len() - 1] == c
}

/// The delay in the text of a response body. Turning the number into
/// milliseconds takes floating point, so the caller does it.
pub fn retry_delay_text(body: &str) -> (r: Option<RetryDelayText>)
    ensures
        r matches Some(d) ==> body_delay(json::parsed(body@)) == Some((d.number@, d.unit)),
        r is None ==> body_delay(json::parsed(body@)) is None,
{
    parse_retry_delay_from_body(&json::parse(body))
}

/// The text of the first header with a name.
pub fn header_value(headers: &Vec<Header>, name: &str) -> (r: Option<String>)
    ensures
        text::opt(r) == header_text(headers@, name@),
{
    let mut i: usize = 0;
    assert(headers@.skip(0) =~= headers@);
    while i < headers.len()
        invariant
            i <= headers@.len(),
            header_text(headers@.skip(i as int), name@) == header_text(headers@, name@),
        decreases headers@.len() - i,
    {
        assert(headers@.skip(i as int)[0] == headers@[i as int]);
        assert(headers@.skip(i as int).drop_first() =~= headers@.skip(i + 1));
        if text::same(headers[i].name.as_str(), name) {
            return text::copy_opt(&headers[i].value);
        }
        i = i + 1;
    }
    None
}

/// The delay in seconds that the headers ask for.
fn header_delay_of(headers: &Vec<Header>, now_secs: Option<u64>) -> (r: Option<u64>)
    ensures
        r == header_delay_secs(headers@, now_secs),
{
    if let Some(t) = header_value(headers, "retry-after") {
        if let Some(secs) = text::parse_u64(t.as_str()) {
            return Some(secs);
        }
    }
    let reset = match header_value(headers, "x-ratelimit-reset") {
        Some(t) => Some(t),
        None => header_value(headers, "ratelimit-reset"),
    };
    match reset {
        None => None,
        Some(t) => match (text::parse_u64(t.as_str()), now_secs) {
            (Some(at), Some(now)) => Some(at.saturating_sub(now)),
            _ => None,
        },
    }
}

/// Whether the delay that the headers ask for is small enough to count in milliseconds.
pub fn header_delay_is_small(headers: &Vec<Header>, now_secs: Option<u64>) -> (r: bool)
    ensures
        r == header_delay_fits(headers@, now_secs),
{
    match header_delay_of(headers, now_secs) {
        Some(secs) => secs <= u64::MAX / 1000,
        None => true,
    }
}

/// The delay in milliseconds that the headers ask for: `retry-after` in seconds,
/// or the time left until a rate limit is lifted.
pub fn parse_retry_delay_from_headers(headers: &Vec<Header>, now_secs: Option<u64>) -> (r: Option<
    u64,
>)
    requires
        header_delay_fits(headers@, now_secs),
    ensures
        r == header_delay(headers@, now_secs),
{
    match header_delay_of(headers, now_secs) {
        Some(secs) => Some(secs * 1000),
        None => None,
    }
}

/// The delay in milliseconds before the next try: what the body asks for, or
/// else what the headers ask for.
pub fn extract_retry_delay(
    body_delay_ms: Option<u64>,
    headers: &Vec<Header>,
    now_secs: Option<u64>,
) -> (r: Option<u64>)
    requires
        body_delay_ms is None ==> header_delay_fits(headers@, now_secs),
    ensures
        r == (match body_delay_ms {
            Some(d) => Some(d),
            None => header_delay(headers@, now_secs),
        }),
{
    match body_delay_ms {
        Some(d) => Some(d),
        None => parse_retry_delay_from_headers(headers, now_secs),
    }
}

// ---------------------------------------------------------------------------
// HTTP errors
// ---------------------------------------------------------------------------

impl ProviderHttpError {
    /// The error of a response. `body_delay_ms` is what `retry_delay_text` found
    /// in the body, in milliseconds, and `now_secs` the time since the epoch.
    pub fn new(
        provider: String,
        url: String,
        status: u16,
        body: String,
        headers: Vec<Header>,
        body_delay_ms: Option<u64>,
        now_secs: Option<u64>,
    ) -> (r: ProviderHttpError)
        requires
            status == 429 && body_delay_ms is None ==> header_delay_fits(headers@, now_secs),
        ensures
            r.provider@ == provider@,
            r.url@ == url@,
            r.status == status,
            r.body@ == shown_body(body@),
            r.headers == headers,
            r.retry_delay_ms == (if status != 429 {
                None
            } else {
                match body_delay_ms {
                    Some(d) => Some(d),
                    None => header_delay(headers@, now_secs),
                }
            }),
    {
        let retry_delay_ms = if status == 429 {
            extract_retry_delay(body_delay_ms, &headers, now_secs)
        } else {
            None
        };
        let total: usize = text::byte_count(body.as_str());
        let body_display = if total > 1024 {
            let v = text::chars_of(body.as_str());
            let end: usize = text::first_bytes(&v, 1024);
            assert(v@.subrange(0, end as int) =~= v@.take(end as int));
            let mut shown = text::substring(&v, 0, end);
            text::push_text(&mut shown, "... [truncated, total ");
            let n = text::number_text(total as u64);
            text::push_text(&mut shown, n.as_str());
            text::push_text(&mut shown, " bytes]");
            shown
        } else {
            body
        };
        ProviderHttpError { provider, url, status, body: body_display, headers, retry_delay_ms }
    }

    /// What the error displays.
    pub open spec fn shown(self) -> Seq<char> {
        self.provider@ + " POST "@ + self.url@ + " failed: "@ + status_line(self.status) + " - "@
            + self.body@
    }

    /// The text of the error.
    pub fn message(&self) -> (r: String)
        requires
            100 <= self.status <= 999,
        ensures
            r@ == self.shown(),
    {
        let mut m = self.provider.clone();
        text::push_text(&mut m, " POST ");
        text::push_text(&mut m, self.url.as_str());
        text::push_text(&mut m, " failed: ");
        let line = status_text(self.status);
        text::push_text(&mut m, line.as_str());
        text::push_text(&mut m, " - ");
        text::push_text(&mut m, self.body.as_str());
        m
    }
}

/// What an HTTP error with a given status and text means.
pub open spec fn http_failure(status: u16, shown: Seq<char>, delay: Option<u64>) -> Failure {
    if 400 <= status < 500 {
        if status == 401 || status == 403 {
            Failure::Authentication(shown)
        } else if status == 429 {
            Failure::RateLimit(shown, delay)
        } else {
            Failure::Invalid(shown)
        }
    } else {
        Failure::Api(shown)
    }
}

impl ProviderError {
    /// The provider error that an HTTP error means.
    pub fn from_http(e: &ProviderHttpError) -> (r: ProviderError)
        requires
            100 <= e.status <= 999,
        ensures
            r@ == http_failure(e.status, e.shown(), e.retry_delay_ms),
    {
        let message = e.message();
        if 400 <= e.status && e.status < 500 {
            if e.status == 401 || e.status == 403 {
                ProviderError::AuthenticationError(message)
            } else if e.status == 429 {
                ProviderError::RateLimitError { message, retry_delay_ms: e.retry_delay_ms }
            } else {
                ProviderError::InvalidRequest(message)
            }
        } else {
            ProviderError::ApiError(message)
        }
    }

    /// The provider error that a failed transfer means: a network error where it
    /// timed out, could not connect or broke off in the body.
    pub fn from_transport(
        is_timeout: bool,
        is_connect: bool,
        is_body: bool,
        message: String,
    ) -> (r: ProviderError)
        ensures
            r@ == (if is_timeout || is_connect || is_body {
                Failure::Network(message@)
            } else {
                Failure::Unexpected(message@)
            }),
    {
        if is_timeout || is_connect || is_body {
            ProviderError::NetworkError(message)
        } else {
            ProviderError::UnexpectedError(message)
        }
    }

    /// The text of the error.
    pub fn message(&self) -> (r: String)
        ensures
            r@ == failure_text(self@),
    {
        let (prefix, rest) = match self {
            ProviderError::NetworkError(m) => ("network error: ", m),
            ProviderError::AuthenticationError(m) => ("authentication error: ", m),
            ProviderError::RateLimitError { message, retry_delay_ms } => (
                "rate limit error: ",
                message,
            ),
            ProviderError::InvalidRequest(m) => ("invalid request: ", m),
            ProviderError::ApiError(m) => ("API error: ", m),
            ProviderError::UnexpectedError(m) => ("unexpected error: ", m),
        };
        let mut out = prefix.to_owned();
        text::push_text(&mut out, rest.as_str());
        out
    }
}

/// What a provider error displays.
pub open spec fn failure_text(f: Failure) -> Seq<char> {
    match f {
        Failure::Network(m) => "network error: "@ + m,
        Failure::Authentication(m) => "authentication error: "@ + m,
        Failure::RateLimit(m, _) => "rate limit error: "@ + m,
        Failure::Invalid(m) => "invalid request: "@ + m,
        Failure::Api(m) => "API error: "@ + m,
        Failure::Unexpected(m) => "unexpected error: "@ + m,
    }
}

/// A rate limit error comes of a status of 429 and of no other, and it carries the
/// delay of the HTTP error.
pub proof fn law_rate_limit_keeps_delay(status: u16, shown: Seq<char>, delay: Option<u64>)
    ensures
        http_failure(status, shown, delay) is RateLimit <==> status == 429,
        http_failure(status, shown, delay) matches Failure::RateLimit(_, d) ==> d == delay,
{
}

} // verus!
