//! What settings, addresses and reports are for: which endpoint is asked, which models take
//! which shape of request, and what a report of a failed stream tells.

use crate::json::Tree;
use crate::providers::chat_format;
use crate::providers::gemini;
use crate::providers::gemini::Settings;
use crate::providers::minimax;
use crate::providers::minimax_stream;
use crate::providers::mock;
use crate::providers::openai;
use crate::providers::openai::{OpenAiConfig, OpenAiEndpointKind};
use crate::providers::stream_events;
use crate::text;
use vstd::prelude::*;

verus! {

/// An address that is configured is the one that is asked, whether or not it names the
/// path of the request or ends in a slash.
pub proof fn law_openai_asks_the_configured_address(url: Seq<char>)
    requires
        url.len() > 0,
        text::trimmed(url) == url,
        url.last() != '/',
    ensures
        !text::ends(url, "/chat/completions"@) ==> openai::endpoint(Some(url)) == url,
        openai::endpoint(Some(url + "/chat/completions"@)) == url,
        openai::endpoint(None) == "https://api.openai.com/v1"@,
        openai::endpoint(Some(Seq::empty())) == openai::endpoint(None),
{
    text::lemma_without_tail(url, '/');
    text::lemma_trimmed_ends(url);
    reveal_strlit("/chat/completions");
    let tail = "/chat/completions"@;
    let u = url + tail;
    assert(tail.len() == 17 && tail[16] == 's');
    assert(u[0] == url[0]);
    assert(u.last() == 's');
    text::lemma_nothing_to_trim(u);
    text::lemma_without_tail(u, '/');
    assert(u.subrange(url.len() as int, u.len() as int) =~= tail);
    assert(text::ends(u, tail));
    assert(u.take(u.len() - tail.len()) =~= url);
}

/// MiniMax has two addresses, and the one in China is asked only where that line is set.
pub proof fn law_minimax_addresses(line: Seq<char>)
    ensures
        minimax::address(Some("china"@)) == "https://api.minimaxi.com/v1"@,
        line != "china"@ ==> minimax::address(Some(line)) == "https://api.minimax.io/v1"@,
        minimax::address(None) == "https://api.minimax.io/v1"@,
{
}

/// White space around the name of a model does not count, and a name that is not listed is
/// kept as it is.
pub proof fn law_model_names_are_trimmed(id: Seq<char>)
    ensures
        !text::begins(text::trimmed(id), "minimax-m2"@) ==> minimax::canonical_id(id)
            == text::trimmed(id),
        text::trimmed(id) == "minimax-m2"@ ==> minimax::canonical_id(id) == "MiniMax-M2"@,
        text::trimmed(id) == "minimax-m2.7"@ ==> minimax::canonical_id(id) == "MiniMax-M2.7"@,
        text::trimmed(id) == "minimax-m2.5"@ ==> minimax::canonical_id(id) == "MiniMax-M2.5"@,
        text::trimmed(id) == "minimax-m2.1"@ ==> minimax::canonical_id(id) == "MiniMax-M2.1"@,
{
    reveal_strlit("minimax-m2");
    reveal_strlit("minimax-m2.7");
    reveal_strlit("minimax-m2.5");
    reveal_strlit("minimax-m2.1");
    reveal_strlit("minimax-m2.7-highspeed");
    reveal_strlit("minimax-m2.5-highspeed");
    reveal_strlit("minimax-m2.1-highspeed");
    let p = "minimax-m2"@;
    assert("minimax-m2.7"@[11] == '7');
    assert("minimax-m2.5"@[11] == '5');
    assert("minimax-m2.1"@[11] == '1');
    assert("minimax-m2.7"@.len() == 12 && "minimax-m2.5"@.len() == 12);
    assert("minimax-m2.1"@.len() == 12 && p.len() == 10);
    assert("minimax-m2.7-highspeed"@.len() == 22);
    assert("minimax-m2.5-highspeed"@.len() == 22);
    assert("minimax-m2.1-highspeed"@.len() == 22);
    assert(p.subrange(0, 10) =~= p);
    assert("minimax-m2.7"@.subrange(0, 10) =~= p);
    assert("minimax-m2.5"@.subrange(0, 10) =~= p);
    assert("minimax-m2.1"@.subrange(0, 10) =~= p);
    assert("minimax-m2.7-highspeed"@.subrange(0, 10) =~= p);
    assert("minimax-m2.5-highspeed"@.subrange(0, 10) =~= p);
    assert("minimax-m2.1-highspeed"@.subrange(0, 10) =~= p);
}

/// Only the official endpoint takes the shape for models that reason, for the families that
/// do, with a vendor in front of the name or without, and never for a chat model.
pub proof fn law_reasoning_models_take_their_shape(id: Seq<char>)
    ensures
        !openai::reasoning_shape(OpenAiEndpointKind::Compatible, id),
        text::has(id, "chat"@) ==> !openai::reasoning_shape(OpenAiEndpointKind::Official, id),
        !text::has(id, "chat"@) && (text::begins(id, "o1"@) || text::begins(id, "o3"@)
            || text::begins(id, "o4"@) || text::begins(id, "gpt-5"@))
            ==> openai::reasoning_shape(OpenAiEndpointKind::Official, id),
        !text::has(id, "chat"@) && (text::has(id, "/"@ + "o1"@) || text::has(id, "/"@ + "o3"@)
            || text::has(id, "/"@ + "o4"@) || text::has(id, "/"@ + "gpt-5"@))
            ==> openai::reasoning_shape(OpenAiEndpointKind::Official, id),
{
}

/// A reply is a stream of events where its type says so, in whatever letters.
pub proof fn law_event_streams_are_announced(t: Seq<char>)
    ensures
        openai::announces_events(Some(t)) == text::has(
            t.map_values(
                |c: char|
                    if 'A' <= c <= 'Z' {
                        (c as u32 + 32) as char
                    } else {
                        c
                    },
            ),
            "text/event-stream"@,
        ),
        !openai::announces_events(None),
{
    assert(text::ascii_lowered(t) =~= t.map_values(
        |c: char|
            if 'A' <= c <= 'Z' {
                (c as u32 + 32) as char
            } else {
                c
            },
    ));
}

/// Exactly the statuses from 200 to 299 are a success.
pub proof fn law_successes(status: u16)
    ensures
        openai::succeeded(status) <==> status / 100 == 2,
{
}

/// Every header that was configured is sent, in its place.
pub proof fn law_configured_headers_are_sent(c: OpenAiConfig, v: Vec<(String, String)>, i: int)
    requires
        c.custom_headers == Some(v),
        0 <= i < v@.len(),
    ensures
        openai::custom_headers(c).len() == v@.len(),
        openai::custom_headers(c)[i] == (v@[i].0@, v@[i].1@),
{
}

/// A stream that stopped is told from one that never began, with the time that was waited
/// and the notes; trying again may help in both.
pub proof fn law_timeouts_are_told_apart(at: u64, timeout: u64, notes: Seq<char>)
    ensures
        openai::timeout_report(Some(at), timeout, notes) == "OpenAI SSE "@ + "inactivity"@
            + " timeout after "@ + text::decimal(timeout as nat) + "ms; diagnostics: "@ + notes
            + " (retryable)"@,
        openai::timeout_report(None, timeout, notes) == "OpenAI SSE "@ + "first byte"@
            + " timeout after "@ + text::decimal(timeout as nat) + "ms; diagnostics: "@ + notes
            + " (retryable)"@,
{
}

/// A report of a failed stream gives the error and the notes, and says that trying again
/// may help exactly where the error is of that kind.
pub proof fn law_failed_streams_are_told(error: Seq<char>, notes: Seq<char>)
    ensures
        ({
            let told = "OpenAI SSE stream error: "@ + error + "; diagnostics: "@ + notes;
            let r = openai::failure_report(error, notes);
            &&& openai::is_retryable(error) ==> r == told + " (retryable)"@
            &&& !openai::is_retryable(error) ==> r == told
        }),
{
    let told = "OpenAI SSE stream error: "@ + error + "; diagnostics: "@ + notes;
    assert(told + Seq::<char>::empty() =~= told);
}

/// A model chooses among its tools where no choice was made.
pub proof fn law_tools_are_left_to_the_model()
    ensures
        chat_format::tool_choice_tree(None) == Tree::Str("auto"@),
{
}

/// The model that was configured is the one in use.
pub proof fn law_configured_models_are_used(s: Settings)
    ensures
        s.model is Some ==> gemini::model_of(s) == s.model->0,
        s.model is None ==> gemini::model_of(s) == gemini::gemini_model(s.model_id),
{
}

/// Text is shown at the end of a sentence, a clause, a word or a line, and when it has grown
/// long; nothing is not shown.
pub proof fn law_text_is_shown_at_pauses(s: Seq<char>, c: char)
    ensures
        c == '.' || c == '!' || c == '?' || c == ',' || c == ';' || c == ':' || c == ' ' || c
            == '\n' ==> minimax_stream::should_flush(s.push(c)),
        !minimax_stream::should_flush(Seq::empty()),
        s.len() + 1 >= 64 ==> minimax_stream::should_flush(s.push(c)),
        minimax_stream::should_flush(s.push(c)) ==> s.len() + 1 >= 64 || text::has(s.push(c), "\n"@)
            || text::is_white(c) || c == '.' || c == '!' || c == '?' || c == ',' || c == ';' || c
            == ':',
{
    assert(s.push(c).last() == c);
}

/// The lines of a scripted text are numbered with two digits, one line after another.
pub proof fn law_scripted_lines_are_numbered(from: nat, to: nat, rest: Seq<char>)
    requires
        from <= to,
    ensures
        mock::scroll_text(from, from, rest) == Seq::<char>::empty(),
        mock::scroll_text(from, to + 1, rest) == mock::scroll_text(from, to, rest)
            + "approval scroll line "@ + (if to + 1 < 10 {
            "0"@ + text::decimal(to + 1)
        } else {
            text::decimal(to + 1)
        }) + ": "@ + rest + "\n"@,
{
    assert(mock::scroll_text(from, to + 1, rest) =~= mock::scroll_text(from, to, rest)
        + "approval scroll line "@ + (if to + 1 < 10 {
        "0"@ + text::decimal(to + 1)
    } else {
        text::decimal(to + 1)
    }) + ": "@ + rest + "\n"@);
}

/// A line of events that cannot be read is reported with no more than its first 200
/// characters.
pub proof fn law_unread_lines_are_shown_in_part(l: Seq<char>)
    ensures
        ({
            let head = "MiniMax SSE parse failure: "@;
            let r = minimax_stream::parse_failure(l);
            &&& r.take(head.len() as int) == head
            &&& stream_events::payload(l) matches Some(d) ==> r.skip(
                head.len() as int,
            ) == d.take(
                if d.len() > 200 {
                    200
                } else {
                    d.len() as int
                },
            )
        }),
{
    let head = "MiniMax SSE parse failure: "@;
    let r = minimax_stream::parse_failure(l);
    assert(r.take(head.len() as int) =~= head);
    if let Some(d) = stream_events::payload(l) {
        assert(d.take(d.len() as int) =~= d);
        assert(r.skip(head.len() as int) =~= d.take(
            if d.len() > 200 {
                200
            } else {
                d.len() as int
            },
        ));
    }
}

} // verus!
