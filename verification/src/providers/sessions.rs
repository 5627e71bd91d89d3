//! The course of a streamed response: what each event of the transfer leads to.

use crate::providers::anthropic_stream;
use crate::providers::anthropic_stream::AnthropicToolCallState;
use crate::providers::gemini_stream;
use crate::providers::gemini_stream::GeminiStreamState;
use crate::providers::minimax_stream;
use crate::providers::minimax_stream::MinimaxStreamState;
use crate::providers::openai::NextStep;
use crate::providers::sse;
use crate::providers::sse::{LineState, SseLineBuffer};
use crate::providers::types;
use crate::providers::types::{ApiStreamChunk, Chunk, ModelInfo};
use vstd::prelude::*;

verus! {

/// What happens next to a transfer.
#[derive(Debug)]
pub enum TransferEvent {
    /// Bytes came in.
    Bytes(Vec<u8>),
    /// The response ended.
    Ended,
    /// The transfer failed.
    Failed(String),
    /// Nobody reads the chunks any more.
    Closed,
}

/// A line buffer that nothing came into.
pub open spec fn fresh_buffer() -> LineState {
    LineState {
        pending: Seq::empty(),
        max: sse::DEFAULT_MAX_LINE_LENGTH as nat,
        exceeded: false,
        skipping: false,
    }
}

/// The chunks after one more, which reports an error.
pub open spec fn reported(
    before: Seq<ApiStreamChunk>,
    after: Seq<ApiStreamChunk>,
    report: Seq<char>,
) -> bool {
    types::chunks(after) == types::chunks(before).push(Chunk::Error(report))
}

/// A streamed response of Anthropic.
pub struct AnthropicSession {
    pub buffer: SseLineBuffer,
    pub state: AnthropicToolCallState,
}

impl AnthropicSession {
    /// A response of which nothing came in yet.
    pub fn new() -> (r: AnthropicSession)
        ensures
            r.buffer@ == fresh_buffer(),
            r.state@ == anthropic_stream::fresh_state(),
    {
        AnthropicSession {
            buffer: SseLineBuffer::default(),
            state: AnthropicToolCallState::default(),
        }
    }

    /// Takes an event in. After a transfer that failed, what came before is still
    /// brought to its end.
    pub fn step(&mut self, event: &TransferEvent, out: &mut Vec<ApiStreamChunk>) -> (r: NextStep)
        ensures
            match *event {
                TransferEvent::Bytes(b) => {
                    &&& r == NextStep::Continue
                    &&& final(self).buffer@ == sse::buffer_after(old(self).buffer@, b@)
                    &&& anthropic_stream::progress(final(self).state@, final(out)@)
                        == anthropic_stream::progress(old(self).state@, old(out)@).bytes(
                        old(self).buffer@,
                        b@,
                    )
                },
                TransferEvent::Ended => {
                    &&& r == NextStep::Finish
                    &&& *final(self) == *old(self)
                    &&& final(out)@ == old(out)@
                },
                TransferEvent::Closed => {
                    &&& r == NextStep::Stop
                    &&& *final(self) == *old(self)
                    &&& final(out)@ == old(out)@
                },
                TransferEvent::Failed(e) => {
                    &&& r == NextStep::Finish
                    &&& *final(self) == *old(self)
                    &&& reported(
                        old(out)@,
                        final(out)@,
                        sse::broken_off("Anthropic SSE stream error: "@, e@),
                    )
                },
            },
    {
        match event {
            TransferEvent::Bytes(b) => {
                anthropic_stream::parse_anthropic_sse_to_chunks(
                    b.as_slice(),
                    &mut self.buffer,
                    &mut self.state,
                    out,
                );
                NextStep::Continue
            },
            TransferEvent::Ended => NextStep::Finish,
            TransferEvent::Closed => NextStep::Stop,
            TransferEvent::Failed(e) => {
                let report = anthropic_stream::anthropic_stream_error(e.as_str());
                types::emit_error(out, report.as_str());
                NextStep::Finish
            },
        }
    }

    /// Ends the response.
    pub fn finish(&mut self, out: &mut Vec<ApiStreamChunk>)
        ensures
            final(self).buffer@ == sse::emptied(old(self).buffer@),
            anthropic_stream::progress(final(self).state@, final(out)@)
                == anthropic_stream::progress(old(self).state@, old(out)@).finish(
                old(self).buffer@,
            ),
    {
        anthropic_stream::finish_anthropic_sse_to_chunks(&mut self.buffer, &mut self.state, out);
    }
}

/// A streamed response of Gemini.
pub struct GeminiSession {
    pub buffer: SseLineBuffer,
    pub state: GeminiStreamState,
}

impl GeminiSession {
    /// A response of which nothing came in yet.
    pub fn new() -> (r: GeminiSession)
        ensures
            r.buffer@ == fresh_buffer(),
            r.state@ == gemini_stream::fresh_state(),
    {
        GeminiSession { buffer: SseLineBuffer::default(), state: GeminiStreamState::default() }
    }

    /// Takes an event in. A transfer that failed is not brought to its end.
    pub fn step(
        &mut self,
        event: &TransferEvent,
        model_info: &Option<ModelInfo>,
        out: &mut Vec<ApiStreamChunk>,
    ) -> (r: NextStep)
        ensures
            match *event {
                TransferEvent::Bytes(b) => {
                    &&& r == NextStep::Continue
                    &&& final(self).buffer@ == sse::buffer_after(old(self).buffer@, b@)
                    &&& gemini_stream::progress(final(self).state@, final(out)@)
                        == gemini_stream::progress(old(self).state@, old(out)@).bytes(
                        old(self).buffer@,
                        b@,
                        gemini_stream::opt_model(*model_info),
                    )
                },
                TransferEvent::Ended => {
                    &&& r == NextStep::Finish
                    &&& *final(self) == *old(self)
                    &&& final(out)@ == old(out)@
                },
                TransferEvent::Closed => {
                    &&& r == NextStep::Stop
                    &&& *final(self) == *old(self)
                    &&& final(out)@ == old(out)@
                },
                TransferEvent::Failed(e) => {
                    &&& r == NextStep::Stop
                    &&& *final(self) == *old(self)
                    &&& reported(
                        old(out)@,
                        final(out)@,
                        sse::broken_off("Gemini SSE stream error: "@, e@),
                    )
                },
            },
    {
        match event {
            TransferEvent::Bytes(b) => {
                gemini_stream::take_gemini_bytes(
                    b.as_slice(),
                    &mut self.buffer,
                    model_info,
                    &mut self.state,
                    out,
                );
                NextStep::Continue
            },
            TransferEvent::Ended => NextStep::Finish,
            TransferEvent::Closed => NextStep::Stop,
            TransferEvent::Failed(e) => {
                let report = gemini_stream::gemini_stream_error(e.as_str());
                types::emit_error(out, report.as_str());
                NextStep::Stop
            },
        }
    }

    /// Ends the response. A line that is not complete by then is left out.
    pub fn finish(&mut self, out: &mut Vec<ApiStreamChunk>)
        ensures
            final(self).buffer == old(self).buffer,
            gemini_stream::progress(final(self).state@, final(out)@)
                == gemini_stream::progress(old(self).state@, old(out)@).finish(),
    {
        gemini_stream::finish_gemini_sse_to_chunks(&mut self.state, out);
    }
}

/// A streamed response of MiniMax.
pub struct MinimaxSession {
    pub buffer: SseLineBuffer,
    pub state: MinimaxStreamState,
}

impl MinimaxSession {
    /// A response of which nothing came in yet.
    pub fn new() -> (r: MinimaxSession)
        ensures
            r.buffer@ == fresh_buffer(),
            r.state@ == minimax_stream::fresh_state(),
    {
        MinimaxSession { buffer: SseLineBuffer::default(), state: MinimaxStreamState::new() }
    }

    /// Takes an event in. A transfer that failed is not brought to its end.
    pub fn step(&mut self, event: &TransferEvent, out: &mut Vec<ApiStreamChunk>) -> (r: NextStep)
        ensures
            match *event {
                TransferEvent::Bytes(b) => {
                    &&& r == NextStep::Continue
                    &&& final(self).buffer@ == sse::buffer_after(old(self).buffer@, b@)
                    &&& minimax_stream::progress(final(self).state@, final(out)@)
                        == minimax_stream::progress(old(self).state@, old(out)@).bytes(
                        old(self).buffer@,
                        b@,
                    )
                },
                TransferEvent::Ended => {
                    &&& r == NextStep::Finish
                    &&& *final(self) == *old(self)
                    &&& final(out)@ == old(out)@
                },
                TransferEvent::Closed => {
                    &&& r == NextStep::Stop
                    &&& *final(self) == *old(self)
                    &&& final(out)@ == old(out)@
                },
                TransferEvent::Failed(e) => {
                    &&& r == NextStep::Stop
                    &&& *final(self) == *old(self)
                    &&& reported(
                        old(out)@,
                        final(out)@,
                        sse::broken_off("MiniMax SSE stream error: "@, e@),
                    )
                },
            },
    {
        match event {
            TransferEvent::Bytes(b) => {
                minimax_stream::take_minimax_bytes(
                    &mut self.buffer,
                    &mut self.state,
                    b.as_slice(),
                    out,
                );
                NextStep::Continue
            },
            TransferEvent::Ended => NextStep::Finish,
            TransferEvent::Closed => NextStep::Stop,
            TransferEvent::Failed(e) => {
                let report = minimax_stream::minimax_stream_error(e.as_str());
                types::emit_error(out, report.as_str());
                NextStep::Stop
            },
        }
    }

    /// Ends the response.
    pub fn finish(&mut self, out: &mut Vec<ApiStreamChunk>)
        ensures
            final(self).buffer@ == sse::emptied(old(self).buffer@),
            minimax_stream::progress(final(self).state@, final(out)@)
                == minimax_stream::progress(old(self).state@, old(out)@).finish_all(old(self).buffer@),
    {
        minimax_stream::finish_minimax_stream(&mut self.buffer, &mut self.state, out);
    }
}

} // verus!
