//! What errors, headers and settings are for: what a failure means is told by its status,
//! delays are those that were asked for, and keys go where they belong.

use crate::json::Tree;
use crate::providers::anthropic;
use crate::providers::errors;
use crate::providers::errors::{DelayUnit, Failure, Header, ProviderHttpError};
use crate::providers::minimax;
use crate::providers::openai;
use crate::text;
use crate::text_laws;
use vstd::prelude::*;

verus! {

/// A failed request is told by its status: 401 and 403 are a matter of authentication, 429
/// of a limit, any other status from 400 to 499 of the request, and the rest of the
/// endpoint. The report is handed on whole.
pub proof fn law_failures_are_told_by_status(status: u16, shown: Seq<char>, delay: Option<u64>)
    ensures
        ({
            let f = errors::http_failure(status, shown, delay);
            &&& status == 401 || status == 403 ==> f == Failure::Authentication(shown)
            &&& status == 429 ==> f == Failure::RateLimit(shown, delay)
            &&& 400 <= status <= 499 && status != 401 && status != 403 && status != 429 ==> f
                == Failure::Invalid(shown)
            &&& status < 400 || status > 499 ==> f == Failure::Api(shown)
        }),
{
}

/// A report names the provider and the address first, and ends with the body.
pub proof fn law_reports_name_request_and_body(e: ProviderHttpError)
    ensures
        ({
            let s = e.shown();
            let head = e.provider@ + " POST "@ + e.url@;
            &&& s.len() >= head.len() + e.body@.len()
            &&& s.take(head.len() as int) == head
            &&& s.skip(s.len() - e.body@.len()) == e.body@
        }),
{
    let s = e.shown();
    let head = e.provider@ + " POST "@ + e.url@;
    assert(s.take(head.len() as int) =~= head);
    assert(s.skip(s.len() - e.body@.len()) =~= e.body@);
}

/// A short body is shown whole; a long one is cut to its front, and how long it was is told.
pub proof fn law_bodies_are_shown(body: Seq<char>)
    ensures
        ({
            let s = errors::shown_body(body);
            let h = text::head_bytes(body, 1024);
            &&& text::byte_len(body) <= 1024 ==> s == body
            &&& text::byte_len(body) > 1024 ==> s.len() >= h.len() && s.take(h.len() as int) == h
                && h == body.take(h.len() as int) && text::byte_len(h) <= 1024
        }),
{
    text_laws::law_cut_text_is_the_longest_front(body, 1024);
    let s = errors::shown_body(body);
    let h = text::head_bytes(body, 1024);
    if text::byte_len(body) > 1024 {
        assert(s.take(h.len() as int) =~= h);
    }
}

/// The first header with a name gives its value; where none has the name there is none.
pub proof fn law_headers_are_found(headers: Seq<Header>, name: Seq<char>, k: int)
    requires
        0 <= k <= headers.len(),
        k < headers.len() ==> headers[k].name@ == name,
        forall|i: int| 0 <= i < k ==> (#[trigger] headers[i]).name@ != name,
    ensures
        k < headers.len() ==> errors::header_text(headers, name) == text::opt(headers[k].value),
        k == headers.len() ==> errors::header_text(headers, name) is None,
    decreases headers.len(),
{
    if k > 0 {
        let rest = headers.drop_first();
        assert(headers[0].name@ != name);
        assert forall|i: int| 0 <= i < k - 1 implies (#[trigger] rest[i]).name@ != name by {
            assert(rest[i] == headers[i + 1]);
        }
        law_headers_are_found(rest, name, k - 1);
    }
}

/// A delay in seconds that `retry-after` asks for is the delay; else the delay is what is
/// left until the limit is lifted.
pub proof fn law_delays_are_those_asked_for(headers: Seq<Header>, now: u64, secs: u64, at: u64)
    requires
        secs * 1000 <= u64::MAX,
        at * 1000 <= u64::MAX,
    ensures
        errors::header_text(headers, "retry-after"@) == Some(text::decimal(secs as nat))
            ==> errors::header_delay(headers, Some(now)) == Some((secs * 1000) as u64),
        errors::header_text(headers, "retry-after"@) is None && errors::header_text(
            headers,
            "x-ratelimit-reset"@,
        ) == Some(text::decimal(at as nat)) ==> ({
            let d = errors::header_delay(headers, Some(now));
            &&& d is Some
            &&& now <= at ==> now * 1000 + d->0 == at * 1000
            &&& now > at ==> d == Some(0u64)
        }),
        errors::header_text(headers, "retry-after"@) is None && errors::header_text(
            headers,
            "x-ratelimit-reset"@,
        ) is None && errors::header_text(headers, "ratelimit-reset"@) is None
            ==> errors::header_delay(headers, Some(now)) is None,
{
    text_laws::law_numbers_read_back(secs);
    text_laws::law_numbers_read_back(at);
}

/// A delay text is a number and its unit.
pub proof fn law_delay_texts_are_read(number: Seq<char>)
    requires
        number.len() > 0,
        !text::is_white(number[0]),
        number.last() != 'h',
        number.last() != 'm',
        number.last() != 's',
    ensures
        errors::delay_parts(number.push('s')) == Some((number, DelayUnit::Seconds)),
        errors::delay_parts(number.push('m')) == Some((number, DelayUnit::Minutes)),
        errors::delay_parts(number.push('h')) == Some((number, DelayUnit::Hours)),
{
    lemma_delay(number, 's');
    lemma_delay(number, 'm');
    lemma_delay(number, 'h');
}

proof fn lemma_delay(number: Seq<char>, unit: char)
    requires
        number.len() > 0,
        !text::is_white(number[0]),
        !text::is_white(unit),
        number.last() != unit,
    ensures
        text::trimmed(number.push(unit)) == number.push(unit),
        text::without_tail(number.push(unit), unit) == number,
{
    let t = number.push(unit);
    assert(t[0] == number[0]);
    text::lemma_nothing_to_trim(t);
    assert(t.drop_last() =~= number);
    text::lemma_without_tail(number, unit);
}

/// The delay in a body is that of its first detail about trying again.
pub proof fn law_body_delays_are_found(b: Tree, e: Tree, details: Seq<Tree>, d: Seq<char>)
    requires
        b.get("error"@) == Some(e),
        e.get("details"@) == Some(Tree::Arr(details)),
        details.len() > 0,
        details[0].get("@type"@) == Some(
            Tree::Str("type.googleapis.com/google.rpc.RetryInfo"@),
        ),
        details[0].get("retryDelay"@) == Some(Tree::Str(d)),
        errors::delay_parts(d) is Some,
    ensures
        errors::body_delay(Some(b)) == errors::delay_parts(d),
{
}

/// A detail about something else is passed over.
pub proof fn law_other_details_are_passed_over(details: Seq<Tree>, i: int, t: Seq<char>)
    requires
        0 <= i < details.len(),
        details[i].get("@type"@) == Some(Tree::Str(t)),
        t != "type.googleapis.com/google.rpc.RetryInfo"@,
    ensures
        errors::details_delay(details, i) == errors::details_delay(details, i + 1),
{
}

/// What is displayed of an error says of what kind it is, and ends with its message.
pub proof fn law_errors_say_their_kind(m: Seq<char>, d: Option<u64>)
    ensures
        errors::failure_text(Failure::Network(m)) == "network error: "@ + m,
        errors::failure_text(Failure::Authentication(m)) == "authentication error: "@ + m,
        errors::failure_text(Failure::RateLimit(m, d)) == "rate limit error: "@ + m,
        errors::failure_text(Failure::Invalid(m)) == "invalid request: "@ + m,
        errors::failure_text(Failure::Api(m)) == "API error: "@ + m,
        errors::failure_text(Failure::Unexpected(m)) == "unexpected error: "@ + m,
{
}

// ---------------------------------------------------------------------------
// Headers
// ---------------------------------------------------------------------------

/// A request carries its key, where there is one, and every header that it was given, in
/// order.
pub proof fn law_requests_carry_key_and_headers(
    key: Seq<char>,
    extra: Seq<(Seq<char>, Seq<char>)>,
    id: Seq<char>,
    k: int,
)
    ensures
        ({
            let h = minimax::request_headers(key, extra);
            let a = anthropic::request_headers(key, id);
            &&& h.contains(("content-type"@, "application/json"@))
            &&& key.len() > 0 ==> h.contains(("authorization"@, "Bearer "@ + key))
            &&& 0 <= k < extra.len() ==> h[k + 1] == extra[k]
            &&& h.len() == extra.len() + 1 + (if key.len() > 0 {
                1int
            } else {
                0
            })
            &&& a.contains(("content-type"@, "application/json"@))
            &&& a.contains(("anthropic-version"@, "2025-04-14"@))
            &&& key.len() > 0 ==> a.contains(("x-api-key"@, key))
        }),
{
    let h = minimax::request_headers(key, extra);
    let a = anthropic::request_headers(key, id);
    assert(h[0] == ("content-type"@, "application/json"@));
    assert(a[0] == ("content-type"@, "application/json"@));
    assert(a[1] == ("anthropic-version"@, "2025-04-14"@));
    if key.len() > 0 {
        assert(h[h.len() - 1] == ("authorization"@, "Bearer "@ + key));
        assert(a[2] == ("x-api-key"@, key));
    }
}

/// What is shown in place of a key depends on nothing but its length.
pub proof fn law_keys_are_not_shown(a: Seq<char>, b: Seq<char>)
    requires
        text::byte_len(a) == text::byte_len(b),
    ensures
        minimax::redacted(a) == minimax::redacted(b),
{
}

// ---------------------------------------------------------------------------
// Settings and diagnostics
// ---------------------------------------------------------------------------

/// A setting that is a positive number counts; any other leaves the default.
pub proof fn law_settings_count(n: u64, default: u64)
    ensures
        n > 0 ==> openai::setting_secs(Some(text::decimal(n as nat)), default) == n,
        openai::setting_secs(Some(text::decimal(0)), default) == default,
        openai::setting_secs(None, default) == default,
        openai::setting_secs(Some(Seq::empty()), default) == default,
{
    text_laws::law_numbers_read_back(n);
    text_laws::law_numbers_read_back(0);
}

/// A report of a failed stream gives every shown header that the response has.
pub proof fn law_shown_headers_are_told(headers: Seq<Header>, n: int, k: int, v: Seq<char>)
    requires
        0 <= k < n <= 8,
        errors::header_text(headers, openai::shown_headers()[k]) == Some(v),
    ensures
        openai::header_notes(headers, n).contains(openai::shown_headers()[k] + "="@ + v),
    decreases n,
{
    let all = openai::header_notes(headers, n);
    let note = openai::shown_headers()[k] + "="@ + v;
    if k == n - 1 {
        assert(all[all.len() - 1] == note);
    } else {
        law_shown_headers_are_told(headers, n - 1, k, v);
        let few = openai::header_notes(headers, n - 1);
        let i = choose|i: int| 0 <= i < few.len() && few[i] == note;
        assert(all[i] == note);
    }
}

/// Trying again may help after a timeout, a connection that failed, or a reply that is not
/// complete or cannot be decoded, however the message spells it.
pub proof fn law_retryable_errors(error: Seq<char>)
    ensures
        ({
            let e = text::lowercased(error);
            let r = openai::is_retryable(error);
            &&& text::has(e, "timeout"@) ==> r
            &&& text::has(e, "connection"@) ==> r
            &&& text::has(e, "incomplete"@) ==> r
            &&& text::has(e, "decode"@) ==> r
            &&& text::has(e, "decoding"@) ==> r
            &&& r ==> text::has(e, "timeout"@) || text::has(e, "connection"@) || text::has(
                e,
                "incomplete"@,
            ) || text::has(e, "decode"@) || text::has(e, "decoding"@)
        }),
{
}

} // verus!
