//! However a transfer cuts the bytes of a response, the same chunks come out.

use crate::providers::anthropic_stream;
use crate::providers::gemini_stream;
use crate::providers::minimax_stream;
use crate::providers::openai_stream;
use crate::providers::sse;
use crate::providers::sse::LineState;
use crate::providers::types::{CompatModel, Model};
use crate::text;
use vstd::prelude::*;

verus! {

/// A buffer between two chunks, whose overflow was reported and that can hold something.
pub open spec fn is_between_chunks(buffer: LineState) -> bool {
    &&& buffer.valid()
    &&& !buffer.exceeded
    &&& buffer.max > 0
}

/// The first of two chunks does not overflow in a line that ends in the second.
pub open spec fn can_be_cut(buffer: LineState, a: Seq<u8>, b: Seq<u8>) -> bool {
    buffer.push(a).0.exceeded ==> sse::first_feed(b) is None
}

proof fn lemma_decoded_add(a: Seq<Seq<u8>>, b: Seq<Seq<u8>>)
    ensures
        sse::decoded(a + b) == sse::decoded(a) + sse::decoded(b),
{
    assert(sse::decoded(a + b) =~= sse::decoded(a) + sse::decoded(b));
}

proof fn lemma_decoded_last(v: Seq<Seq<u8>>)
    requires
        v.len() > 0,
    ensures
        sse::decoded(v).drop_last() == sse::decoded(v.drop_last()),
        sse::decoded(v).last() == sse::line_text(v.last()),
        v.last().len() == 0 ==> text::trimmed(sse::decoded(v).last()).len() == 0,
        v.last().len() > 0 ==> sse::decoded(sse::nonempty(v)) == sse::decoded(
            sse::nonempty(v.drop_last()),
        ).push(sse::line_text(v.last())),
{
    assert(sse::decoded(v).drop_last() =~= sse::decoded(v.drop_last()));
    assert(text::trimmed(Seq::empty()).len() == 0);
    if v.last().len() > 0 {
        assert(sse::decoded(sse::nonempty(v)) =~= sse::decoded(sse::nonempty(v.drop_last())).push(
            sse::line_text(v.last()),
        ));
    }
}

proof fn lemma_anthropic_lines(
    p: anthropic_stream::Progress,
    a: Seq<Seq<char>>,
    b: Seq<Seq<char>>,
)
    ensures
        p.lines(a).lines(b) == p.lines(a + b),
    decreases b.len(),
{
    if b.len() == 0 {
        assert(a + b =~= a);
    } else {
        assert((a + b).drop_last() =~= a + b.drop_last());
        assert((a + b).last() == b.last());
        lemma_anthropic_lines(p, a, b.drop_last());
    }
}

/// Empty lines say nothing.
proof fn lemma_anthropic_empty_lines(
    p: anthropic_stream::Progress,
    v: Seq<Seq<u8>>,
)
    ensures
        p.lines(sse::decoded(v)) == p.lines(sse::decoded(sse::nonempty(v))),
    decreases v.len(),
{
    if v.len() == 0 {
        assert(sse::decoded(v) =~= sse::decoded(sse::nonempty(v)));
    } else {
        lemma_anthropic_empty_lines(p, v.drop_last());
        lemma_decoded_last(v);
        if v.last().len() > 0 {
            let l = sse::line_text(v.last());
            let few = sse::decoded(sse::nonempty(v.drop_last()));
            assert(few.push(l).drop_last() =~= few);
        }
    }
}

/// However the bytes of a response of Anthropic are cut in two, the state
/// and the chunks are the same.
pub proof fn law_anthropic_cuts_do_not_matter(
    p: anthropic_stream::Progress,
    buffer: LineState,
    a: Seq<u8>,
    b: Seq<u8>,
)
    requires
        is_between_chunks(buffer),
        can_be_cut(buffer, a, b),
    ensures
        p.bytes(buffer, a).bytes(sse::buffer_after(buffer, a), b) == p.bytes(
            buffer,
            a + b,
        ),
        sse::buffer_after(sse::buffer_after(buffer, a), b) == sse::buffer_after(buffer, a + b),
{
    sse::law_cuts_do_not_matter(buffer, a, b);
    let x = buffer.push(a).1;
    let y = sse::buffer_after(buffer, a).push(b).1;
    let first = p.lines(sse::decoded(x));
    lemma_anthropic_empty_lines(p, x);
    lemma_anthropic_empty_lines(first, y);
    lemma_anthropic_empty_lines(p, buffer.push(a + b).1);
    lemma_decoded_add(sse::nonempty(x), sse::nonempty(y));
    lemma_anthropic_lines(
        p,
        sse::decoded(sse::nonempty(x)),
        sse::decoded(sse::nonempty(y)),
    );
    if buffer.push(a).0.exceeded {
        assert(sse::decoded(y) =~= Seq::empty());
    }
}

proof fn lemma_gemini_lines(
    p: gemini_stream::Progress,
    a: Seq<Seq<char>>,
    b: Seq<Seq<char>>,
    m: Option<Model>,
)
    ensures
        p.lines(a, m).lines(b, m) == p.lines(a + b, m),
    decreases b.len(),
{
    if b.len() == 0 {
        assert(a + b =~= a);
    } else {
        assert((a + b).drop_last() =~= a + b.drop_last());
        assert((a + b).last() == b.last());
        lemma_gemini_lines(p, a, b.drop_last(), m);
    }
}

/// Empty lines say nothing.
proof fn lemma_gemini_empty_lines(
    p: gemini_stream::Progress,
    v: Seq<Seq<u8>>,
    m: Option<Model>,
)
    ensures
        p.lines(sse::decoded(v), m) == p.lines(sse::decoded(sse::nonempty(v)), m),
    decreases v.len(),
{
    if v.len() == 0 {
        assert(sse::decoded(v) =~= sse::decoded(sse::nonempty(v)));
    } else {
        lemma_gemini_empty_lines(p, v.drop_last(), m);
        lemma_decoded_last(v);
        if v.last().len() > 0 {
            let l = sse::line_text(v.last());
            let few = sse::decoded(sse::nonempty(v.drop_last()));
            assert(few.push(l).drop_last() =~= few);
        }
    }
}

/// However the bytes of a response of Gemini are cut in two, the state
/// and the chunks are the same.
pub proof fn law_gemini_cuts_do_not_matter(
    p: gemini_stream::Progress,
    buffer: LineState,
    a: Seq<u8>,
    b: Seq<u8>,
    m: Option<Model>,
)
    requires
        is_between_chunks(buffer),
        can_be_cut(buffer, a, b),
    ensures
        p.bytes(buffer, a, m).bytes(sse::buffer_after(buffer, a), b, m) == p.bytes(
            buffer,
            a + b,
            m,
        ),
        sse::buffer_after(sse::buffer_after(buffer, a), b) == sse::buffer_after(buffer, a + b),
{
    sse::law_cuts_do_not_matter(buffer, a, b);
    let x = buffer.push(a).1;
    let y = sse::buffer_after(buffer, a).push(b).1;
    let first = p.lines(sse::decoded(x), m);
    lemma_gemini_empty_lines(p, x, m);
    lemma_gemini_empty_lines(first, y, m);
    lemma_gemini_empty_lines(p, buffer.push(a + b).1, m);
    lemma_decoded_add(sse::nonempty(x), sse::nonempty(y));
    lemma_gemini_lines(
        p,
        sse::decoded(sse::nonempty(x)),
        sse::decoded(sse::nonempty(y)),
        m,
    );
    if buffer.push(a).0.exceeded {
        assert(sse::decoded(y) =~= Seq::empty());
    }
}

proof fn lemma_minimax_lines(
    p: minimax_stream::Progress,
    a: Seq<Seq<char>>,
    b: Seq<Seq<char>>,
)
    ensures
        p.lines(a).lines(b) == p.lines(a + b),
    decreases b.len(),
{
    if b.len() == 0 {
        assert(a + b =~= a);
    } else {
        assert((a + b).drop_last() =~= a + b.drop_last());
        assert((a + b).last() == b.last());
        lemma_minimax_lines(p, a, b.drop_last());
    }
}

/// Empty lines say nothing.
proof fn lemma_minimax_empty_lines(
    p: minimax_stream::Progress,
    v: Seq<Seq<u8>>,
)
    ensures
        p.lines(sse::decoded(v)) == p.lines(sse::decoded(sse::nonempty(v))),
    decreases v.len(),
{
    if v.len() == 0 {
        assert(sse::decoded(v) =~= sse::decoded(sse::nonempty(v)));
    } else {
        lemma_minimax_empty_lines(p, v.drop_last());
        lemma_decoded_last(v);
        if v.last().len() > 0 {
            let l = sse::line_text(v.last());
            let few = sse::decoded(sse::nonempty(v.drop_last()));
            assert(few.push(l).drop_last() =~= few);
        }
    }
}

/// However the bytes of a response of MiniMax are cut in two, the state
/// and the chunks are the same.
pub proof fn law_minimax_cuts_do_not_matter(
    p: minimax_stream::Progress,
    buffer: LineState,
    a: Seq<u8>,
    b: Seq<u8>,
)
    requires
        is_between_chunks(buffer),
        can_be_cut(buffer, a, b),
    ensures
        p.bytes(buffer, a).bytes(sse::buffer_after(buffer, a), b) == p.bytes(
            buffer,
            a + b,
        ),
        sse::buffer_after(sse::buffer_after(buffer, a), b) == sse::buffer_after(buffer, a + b),
{
    sse::law_cuts_do_not_matter(buffer, a, b);
    let x = buffer.push(a).1;
    let y = sse::buffer_after(buffer, a).push(b).1;
    let first = p.lines(sse::decoded(x));
    lemma_minimax_empty_lines(p, x);
    lemma_minimax_empty_lines(first, y);
    lemma_minimax_empty_lines(p, buffer.push(a + b).1);
    lemma_decoded_add(sse::nonempty(x), sse::nonempty(y));
    lemma_minimax_lines(
        p,
        sse::decoded(sse::nonempty(x)),
        sse::decoded(sse::nonempty(y)),
    );
    if buffer.push(a).0.exceeded {
        assert(sse::decoded(y) =~= Seq::empty());
    }
}

proof fn lemma_openai_lines(
    p: openai_stream::Progress,
    a: Seq<Seq<char>>,
    b: Seq<Seq<char>>,
    m: Option<CompatModel>,
    room: usize,
)
    ensures
        p.lines(a, m, room).lines(b, m, room) == p.lines(a + b, m, room),
    decreases b.len(),
{
    if b.len() == 0 {
        assert(a + b =~= a);
    } else {
        assert((a + b).drop_last() =~= a + b.drop_last());
        assert((a + b).last() == b.last());
        lemma_openai_lines(p, a, b.drop_last(), m, room);
    }
}

/// Empty lines say nothing.
proof fn lemma_openai_empty_lines(
    p: openai_stream::Progress,
    v: Seq<Seq<u8>>,
    m: Option<CompatModel>,
    room: usize,
)
    ensures
        p.lines(sse::decoded(v), m, room) == p.lines(sse::decoded(sse::nonempty(v)), m, room),
    decreases v.len(),
{
    if v.len() == 0 {
        assert(sse::decoded(v) =~= sse::decoded(sse::nonempty(v)));
    } else {
        lemma_openai_empty_lines(p, v.drop_last(), m, room);
        lemma_decoded_last(v);
        if v.last().len() > 0 {
            let l = sse::line_text(v.last());
            let few = sse::decoded(sse::nonempty(v.drop_last()));
            assert(few.push(l).drop_last() =~= few);
        }
    }
}

/// However the bytes of a response of OpenAI or a compatible endpoint are cut in two, the state
/// and the chunks are the same.
pub proof fn law_openai_cuts_do_not_matter(
    p: openai_stream::Progress,
    buffer: LineState,
    a: Seq<u8>,
    b: Seq<u8>,
    m: Option<CompatModel>,
    room: usize,
)
    requires
        is_between_chunks(buffer),
        can_be_cut(buffer, a, b),
    ensures
        p.bytes(buffer, a, m, room).bytes(sse::buffer_after(buffer, a), b, m, room) == p.bytes(
            buffer,
            a + b,
            m,
            room,
        ),
        sse::buffer_after(sse::buffer_after(buffer, a), b) == sse::buffer_after(buffer, a + b),
{
    sse::law_cuts_do_not_matter(buffer, a, b);
    let x = buffer.push(a).1;
    let y = sse::buffer_after(buffer, a).push(b).1;
    let first = p.lines(sse::decoded(x), m, room);
    lemma_openai_empty_lines(p, x, m, room);
    lemma_openai_empty_lines(first, y, m, room);
    lemma_openai_empty_lines(p, buffer.push(a + b).1, m, room);
    lemma_decoded_add(sse::nonempty(x), sse::nonempty(y));
    lemma_openai_lines(
        p,
        sse::decoded(sse::nonempty(x)),
        sse::decoded(sse::nonempty(y)),
        m,
        room,
    );
    if buffer.push(a).0.exceeded {
        assert(sse::decoded(y) =~= Seq::empty());
    }
}

} // verus!
