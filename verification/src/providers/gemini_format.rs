//! Conversations as the Gemini endpoint takes them.
//!
//! A message becomes a content with a role and parts. Thought signatures travel with
//! the parts: a text without one takes the last one before it, a function call keeps
//! only its own, and a function response has none.

use crate::json;
use crate::json::{Json, Tree};
use crate::providers::chat_format;
use crate::providers::minimax;
use crate::providers::types;
use crate::providers::types::{
    AssistantContentBlock, DocumentSource, ImageSource, MessageContent, MessageRole,
    StorageMessage, ToolResultContent, ToolResultContentBlock, UserContentBlock,
};
use crate::text;
use vstd::prelude::*;

verus! {

/// Gemini API content part.
#[derive(Debug, PartialEq)]
pub struct GeminiPart {
    /// Inline text content.
    pub text: Option<String>,
    /// Thinking/reasoning content (Gemini 2.5+).
    pub thought: Option<bool>,
    /// Thought signature for round-tripping (critical for Gemini 3).
    pub thought_signature: Option<String>,
    /// Function call (tool use).
    pub function_call: Option<GeminiFunctionCall>,
    /// Function response (tool result).
    pub function_response: Option<GeminiFunctionResponse>,
    /// Inline image data.
    pub inline_data: Option<GeminiInlineData>,
    /// File data for URL-based media (images, audio, video).
    pub file_data: Option<GeminiFileData>,
}

/// Gemini function call structure.
#[derive(Debug, PartialEq)]
pub struct GeminiFunctionCall {
    /// Function name.
    pub name: String,
    /// Function arguments as a JSON object.
    pub args: Option<Json>,
    /// Unique ID for the function call (Gemini 3+).
    pub id: Option<String>,
}

/// Gemini function response structure.
#[derive(Debug, PartialEq)]
pub struct GeminiFunctionResponse {
    /// Function name.
    pub name: String,
    /// Response content.
    pub response: Json,
    /// Function call ID being responded to.
    pub id: Option<String>,
}

/// Gemini inline data for images.
#[derive(Debug, Clone, PartialEq)]
pub struct GeminiInlineData {
    /// MIME type of the data.
    pub mime_type: String,
    /// Base64-encoded data.
    pub data: String,
}

/// Gemini file data for URL-based media.
#[derive(Debug, Clone, PartialEq)]
pub struct GeminiFileData {
    /// URI of the file (can be HTTP URL or Google Cloud Storage URI).
    pub file_uri: String,
    /// MIME type of the file.
    pub mime_type: String,
}

/// Gemini API content message.
#[derive(Debug, PartialEq)]
pub struct GeminiContent {
    /// Role: "user" or "model".
    pub role: String,
    /// Content parts.
    pub parts: Vec<GeminiPart>,
}

// ---------------------------------------------------------------------------
// Values
// ---------------------------------------------------------------------------

/// The mathematical value of a function call.
pub struct FunctionCall {
    pub name: Seq<char>,
    pub args: Option<Tree>,
    pub id: Option<Seq<char>>,
}

/// The mathematical value of a function response.
pub struct FunctionResponse {
    pub name: Seq<char>,
    pub response: Tree,
    pub id: Option<Seq<char>>,
}

/// The mathematical value of a part. Inline data is a type and the data, file data an
/// address and a type.
pub struct Part {
    pub text: Option<Seq<char>>,
    pub thought: Option<bool>,
    pub signature: Option<Seq<char>>,
    pub call: Option<FunctionCall>,
    pub response: Option<FunctionResponse>,
    pub inline_data: Option<(Seq<char>, Seq<char>)>,
    pub file_data: Option<(Seq<char>, Seq<char>)>,
}

/// The mathematical value of a content.
pub struct Content {
    pub role: Seq<char>,
    pub parts: Seq<Part>,
}

impl View for GeminiPart {
    type V = Part;

    open spec fn view(&self) -> Part {
        Part {
            text: text::opt(self.text),
            thought: self.thought,
            signature: text::opt(self.thought_signature),
            call: match self.function_call {
                Some(c) => Some(
                    FunctionCall {
                        name: c.name@,
                        args: types::opt_tree(c.args),
                        id: text::opt(c.id),
                    },
                ),
                None => None,
            },
            response: match self.function_response {
                Some(r) => Some(
                    FunctionResponse { name: r.name@, response: r.response@, id: text::opt(r.id) },
                ),
                None => None,
            },
            inline_data: match self.inline_data {
                Some(d) => Some((d.mime_type@, d.data@)),
                None => None,
            },
            file_data: match self.file_data {
                Some(d) => Some((d.file_uri@, d.mime_type@)),
                None => None,
            },
        }
    }
}

/// The values of a list of parts.
pub open spec fn part_values(v: Seq<GeminiPart>) -> Seq<Part> {
    v.map_values(|p: GeminiPart| p@)
}

impl View for GeminiContent {
    type V = Content;

    open spec fn view(&self) -> Content {
        Content { role: self.role@, parts: part_values(self.parts@) }
    }
}

/// The values of a list of contents.
pub open spec fn content_values(v: Seq<GeminiContent>) -> Seq<Content> {
    v.map_values(|c: GeminiContent| c@)
}

/// The part that holds nothing but a signature.
pub open spec fn blank_part(signature: Option<Seq<char>>) -> Part {
    Part {
        text: None,
        thought: None,
        signature,
        call: None,
        response: None,
        inline_data: None,
        file_data: None,
    }
}

fn make_blank(signature: Option<String>) -> (r: GeminiPart)
    ensures
        r@ == blank_part(text::opt(signature)),
{
    GeminiPart {
        text: None,
        thought: None,
        thought_signature: signature,
        function_call: None,
        function_response: None,
        inline_data: None,
        file_data: None,
    }
}

/// A part of text.
pub open spec fn text_part(t: Seq<char>, signature: Option<Seq<char>>) -> Part {
    Part { text: Some(t), ..blank_part(signature) }
}

fn make_text(t: &str, signature: Option<String>) -> (r: GeminiPart)
    ensures
        r@ == text_part(t@, text::opt(signature)),
{
    let mut p = make_blank(signature);
    p.text = Some(t.to_owned());
    p
}

/// A part of inline data.
pub open spec fn data_part(
    media_type: Seq<char>,
    data: Seq<char>,
    signature: Option<Seq<char>>,
) -> Part {
    Part { inline_data: Some((media_type, data)), ..blank_part(signature) }
}

fn make_data(media_type: &str, data: &str, signature: Option<String>) -> (r: GeminiPart)
    ensures
        r@ == data_part(media_type@, data@, text::opt(signature)),
{
    let mut p = make_blank(signature);
    p.inline_data =
    Some(GeminiInlineData { mime_type: media_type.to_owned(), data: data.to_owned() });
    p
}

/// The type of an image, by the end of its address.
pub open spec fn image_type(url: Seq<char>) -> Seq<char> {
    if text::ends(url, ".png"@) {
        "image/png"@
    } else if text::ends(url, ".gif"@) {
        "image/gif"@
    } else if text::ends(url, ".webp"@) {
        "image/webp"@
    } else {
        "image/jpeg"@
    }
}

/// The type of an image, by the end of its address.
pub fn image_type_of(url: &str) -> (r: &'static str)
    ensures
        r@ == image_type(url@),
{
    if text::ends_with(url, ".png") {
        "image/png"
    } else if text::ends_with(url, ".gif") {
        "image/gif"
    } else if text::ends_with(url, ".webp") {
        "image/webp"
    } else {
        "image/jpeg"
    }
}

/// An image: inline where its data is at hand, a file by its address else.
pub open spec fn image_part(s: ImageSource, signature: Option<Seq<char>>) -> Part {
    match s {
        ImageSource::Base64 { media_type, data } => data_part(media_type@, data@, signature),
        ImageSource::Url { url } => Part {
            file_data: Some((url@, image_type(url@))),
            ..blank_part(signature)
        },
    }
}

fn make_image(s: &ImageSource, signature: Option<String>) -> (r: GeminiPart)
    ensures
        r@ == image_part(*s, text::opt(signature)),
{
    match s {
        ImageSource::Base64 { media_type, data } => make_data(
            media_type.as_str(),
            data.as_str(),
            signature,
        ),
        ImageSource::Url { url } => {
            let mut p = make_blank(signature);
            p.file_data =
            Some(
                GeminiFileData {
                    file_uri: url.clone(),
                    mime_type: image_type_of(url.as_str()).to_owned(),
                },
            );
            p
        },
    }
}

/// A document of a user. One by its address becomes a text that names it.
pub open spec fn document_part(s: DocumentSource, signature: Option<Seq<char>>) -> Part {
    match s {
        DocumentSource::Text { text } => text_part(text@, signature),
        DocumentSource::Base64 { media_type, data } => data_part(media_type@, data@, signature),
        DocumentSource::Url { url } => text_part("[Document: "@ + url@ + "]"@, signature),
    }
}

fn make_document(s: &DocumentSource, signature: Option<String>) -> (r: GeminiPart)
    ensures
        r@ == document_part(*s, text::opt(signature)),
{
    match s {
        DocumentSource::Text { text } => make_text(text.as_str(), signature),
        DocumentSource::Base64 { media_type, data } => make_data(
            media_type.as_str(),
            data.as_str(),
            signature,
        ),
        DocumentSource::Url { url } => {
            let mut t = "[Document: ".to_owned();
            text::push_text(&mut t, url.as_str());
            text::push_text(&mut t, "]");
            make_text(t.as_str(), signature)
        },
    }
}

// ---------------------------------------------------------------------------
// Tool results
// ---------------------------------------------------------------------------

/// The texts among the blocks of a tool result.
pub open spec fn block_texts(v: Seq<ToolResultContentBlock>) -> Seq<Seq<char>>
    decreases v.len(),
{
    if v.len() == 0 {
        Seq::empty()
    } else {
        match v.last() {
            ToolResultContentBlock::Text { text } => block_texts(v.drop_last()).push(text@),
            ToolResultContentBlock::Image { source } => block_texts(v.drop_last()),
        }
    }
}

/// The text of a tool result: its texts, on lines of their own.
pub open spec fn result_text(c: ToolResultContent) -> Seq<char> {
    match c {
        ToolResultContent::Text(t) => t@,
        ToolResultContent::Blocks(v) => text::joined(block_texts(v@), "\n"@),
    }
}

fn make_result_text(c: &ToolResultContent) -> (r: String)
    ensures
        r@ == result_text(*c),
{
    match c {
        ToolResultContent::Text(t) => t.clone(),
        ToolResultContent::Blocks(v) => {
            let mut parts: Vec<String> = Vec::new();
            let mut i: usize = 0;
            assert(text::texts(parts@) =~= block_texts(v@.take(0)));
            while i < v.len()
                invariant
                    i <= v@.len(),
                    text::texts(parts@) == block_texts(v@.take(i as int)),
                decreases v@.len() - i,
            {
                assert(v@.take(i + 1).drop_last() =~= v@.take(i as int));
                if let ToolResultContentBlock::Text { text } = &v[i] {
                    let ghost before = parts@;
                    parts.push(text.clone());
                    assert(text::texts(parts@) =~= text::texts(before).push(text@));
                }
                i = i + 1;
            }
            assert(v@.take(i as int) =~= v@);
            text::join(&parts, "\n")
        },
    }
}

/// The calls that a block makes: its identifier and the name of its function.
pub open spec fn block_call(b: AssistantContentBlock) -> Option<(Seq<char>, Seq<char>)> {
    match b {
        AssistantContentBlock::ToolUse(t) => Some((t.id@, t.name@)),
        _ => None,
    }
}

/// The calls among the blocks of a message.
pub open spec fn block_calls(v: Seq<AssistantContentBlock>) -> Seq<(Seq<char>, Seq<char>)>
    decreases v.len(),
{
    if v.len() == 0 {
        Seq::empty()
    } else {
        match block_call(v.last()) {
            Some(c) => block_calls(v.drop_last()).push(c),
            None => block_calls(v.drop_last()),
        }
    }
}

/// The calls of a message.
pub open spec fn message_calls(m: StorageMessage) -> Seq<(Seq<char>, Seq<char>)> {
    match m.content {
        MessageContent::AssistantBlocks(v) => block_calls(v@),
        _ => Seq::empty(),
    }
}

/// The calls of a conversation, in order.
pub open spec fn calls(v: Seq<StorageMessage>) -> Seq<(Seq<char>, Seq<char>)>
    decreases v.len(),
{
    if v.len() == 0 {
        Seq::empty()
    } else {
        calls(v.drop_last()) + message_calls(v.last())
    }
}

/// The name of the function that the last call with an identifier made.
pub open spec fn called(calls: Seq<(Seq<char>, Seq<char>)>, id: Seq<char>) -> Option<Seq<char>>
    decreases calls.len(),
{
    if calls.len() == 0 {
        None
    } else if calls.last().0 == id {
        Some(calls.last().1)
    } else {
        called(calls.drop_last(), id)
    }
}

/// The calls of a conversation: identifiers with the names of their functions.
pub fn build_tool_use_id_to_name(messages: &Vec<StorageMessage>) -> (r: Vec<(String, String)>)
    ensures
        text::pair_texts(r@) == calls(messages@),
{
    let mut out: Vec<(String, String)> = Vec::new();
    let mut i: usize = 0;
    assert(text::pair_texts(out@) =~= calls(messages@.take(0)));
    while i < messages.len()
        invariant
            i <= messages@.len(),
            text::pair_texts(out@) == calls(messages@.take(i as int)),
        decreases messages@.len() - i,
    {
        let ghost start = text::pair_texts(out@);
        assert(messages@.take(i + 1).drop_last() =~= messages@.take(i as int));
        assert(start + Seq::<(Seq<char>, Seq<char>)>::empty() =~= start);
        if let MessageContent::AssistantBlocks(v) = &messages[i].content {
            let mut k: usize = 0;
            assert(start + block_calls(v@.take(0)) =~= start);
            while k < v.len()
                invariant
                    k <= v@.len(),
                    text::pair_texts(out@) == start + block_calls(v@.take(k as int)),
                decreases v@.len() - k,
            {
                assert(v@.take(k + 1).drop_last() =~= v@.take(k as int));
                if let AssistantContentBlock::ToolUse(t) = &v[k] {
                    let ghost before = out@;
                    out.push((t.id.clone(), t.name.clone()));
                    assert(text::pair_texts(out@) =~= text::pair_texts(before).push((t.id@, t.name@)));
                    assert(text::pair_texts(out@) =~= start + block_calls(v@.take(k + 1)));
                }
                k = k + 1;
            }
            assert(v@.take(k as int) =~= v@);
        }
        i = i + 1;
    }
    assert(messages@.take(i as int) =~= messages@);
    out
}

/// The name of the function that the last call with an identifier made.
pub fn called_name(calls: &Vec<(String, String)>, id: &str) -> (r: Option<String>)
    ensures
        text::opt(r) == called(text::pair_texts(calls@), id@),
{
    let ghost cs = text::pair_texts(calls@);
    let mut n: usize = calls.len();
    assert(cs.take(n as int) =~= cs);
    while n > 0
        invariant
            n <= calls@.len(),
            cs == text::pair_texts(calls@),
            called(cs.take(n as int), id@) == called(cs, id@),
        decreases n,
    {
        assert(cs.take(n as int).drop_last() =~= cs.take(n - 1));
        assert(cs.take(n as int).last() == (calls@[n - 1].0@, calls@[n - 1].1@));
        if text::same(calls[n - 1].0.as_str(), id) {
            return Some(calls[n - 1].1.clone());
        }
        n = n - 1;
    }
    None
}

// ---------------------------------------------------------------------------
// Parts
// ---------------------------------------------------------------------------

/// The last signature that a text among the blocks of a user carries.
pub open spec fn user_signature(v: Seq<UserContentBlock>) -> Option<Seq<char>>
    decreases v.len(),
{
    if v.len() == 0 {
        None
    } else {
        match v.last() {
            UserContentBlock::Text(t) => match t.shared.signature {
                Some(s) => Some(s@),
                None => user_signature(v.drop_last()),
            },
            _ => user_signature(v.drop_last()),
        }
    }
}

/// The part that a block of a user becomes; `carried` is the signature that a text
/// without one of its own takes.
pub open spec fn user_part(
    b: UserContentBlock,
    carried: Option<Seq<char>>,
    calls: Seq<(Seq<char>, Seq<char>)>,
) -> Part {
    match b {
        UserContentBlock::Text(t) => text_part(t.text@, carried),
        UserContentBlock::Image(i) => image_part(i.source, text::opt(i.shared.signature)),
        UserContentBlock::Document(d) => document_part(d.source, text::opt(d.shared.signature)),
        UserContentBlock::ToolResult(r) => Part {
            response: Some(
                FunctionResponse {
                    name: match called(calls, r.tool_use_id@) {
                        Some(n) => n,
                        None => r.tool_use_id@,
                    },
                    response: json::empty_obj().put("result"@, Tree::Str(result_text(r.content))),
                    id: Some(r.tool_use_id@),
                },
            ),
            ..blank_part(None)
        },
    }
}

/// The parts of a user's blocks, one for each.
pub open spec fn user_parts(
    v: Seq<UserContentBlock>,
    calls: Seq<(Seq<char>, Seq<char>)>,
) -> Seq<Part> {
    Seq::new(v.len(), |i: int| user_part(v[i], user_signature(v.take(i + 1)), calls))
}

/// The last signature that a text or a call among the blocks of the model carries.
pub open spec fn model_signature(v: Seq<AssistantContentBlock>) -> Option<Seq<char>>
    decreases v.len(),
{
    if v.len() == 0 {
        None
    } else {
        let own = match v.last() {
            AssistantContentBlock::Text(t) => text::opt(t.shared.signature),
            AssistantContentBlock::ToolUse(t) => text::opt(t.shared.signature),
            _ => None,
        };
        if own is Some {
            own
        } else {
            model_signature(v.drop_last())
        }
    }
}

/// The part that a block of the model becomes. Redacted thinking is left out, and so
/// is a document that is no text.
pub open spec fn model_part(b: AssistantContentBlock, carried: Option<Seq<char>>) -> Option<Part> {
    match b {
        AssistantContentBlock::Text(t) => Some(text_part(t.text@, carried)),
        AssistantContentBlock::Thinking(t) => Some(
            Part { thought: Some(true), ..text_part(t.thinking@, Some(t.signature@)) },
        ),
        AssistantContentBlock::ToolUse(t) => Some(
            Part {
                call: Some(
                    FunctionCall { name: t.name@, args: Some(t.input@), id: Some(t.id@) },
                ),
                ..blank_part(text::opt(t.shared.signature))
            },
        ),
        AssistantContentBlock::Image(i) => Some(
            image_part(i.source, text::opt(i.shared.signature)),
        ),
        AssistantContentBlock::Document(d) => match d.source {
            DocumentSource::Text { text } => Some(
                text_part(text@, text::opt(d.shared.signature)),
            ),
            _ => None,
        },
        AssistantContentBlock::RedactedThinking(_) => None,
    }
}

/// The parts of the model's blocks.
pub open spec fn model_parts(v: Seq<AssistantContentBlock>) -> Seq<Part>
    decreases v.len(),
{
    if v.len() == 0 {
        Seq::empty()
    } else {
        match model_part(v.last(), model_signature(v)) {
            Some(p) => model_parts(v.drop_last()).push(p),
            None => model_parts(v.drop_last()),
        }
    }
}

/// The parts of a message.
pub open spec fn content_parts(
    c: MessageContent,
    calls: Seq<(Seq<char>, Seq<char>)>,
) -> Seq<Part> {
    match c {
        MessageContent::Text(t) => seq![text_part(t@, None)],
        MessageContent::UserBlocks(v) => user_parts(v@, calls),
        MessageContent::AssistantBlocks(v) => model_parts(v@),
    }
}

/// The content that a message becomes.
pub open spec fn content(m: StorageMessage, calls: Seq<(Seq<char>, Seq<char>)>) -> Content {
    Content {
        role: match m.role {
            MessageRole::User => "user"@,
            MessageRole::Assistant => "model"@,
        },
        parts: content_parts(m.content, calls),
    }
}

/// The contents of a conversation.
pub open spec fn contents(v: Seq<StorageMessage>) -> Seq<Content> {
    v.map_values(|m: StorageMessage| content(m, calls(v)))
}

/// A function response never carries a thought signature, whatever the stored block
/// carries.
pub proof fn law_responses_have_no_signature(
    v: Seq<UserContentBlock>,
    calls: Seq<(Seq<char>, Seq<char>)>,
    i: int,
)
    requires
        0 <= i < v.len(),
        user_parts(v, calls)[i].response is Some,
    ensures
        user_parts(v, calls)[i].signature is None,
{
}

/// A function call carries exactly its own signature: of calls made side by side, one
/// without a signature takes none from the others.
pub proof fn law_calls_keep_their_own_signature(
    b: AssistantContentBlock,
    carried: Option<Seq<char>>,
    other: Option<Seq<char>>,
)
    requires
        b is ToolUse,
    ensures
        model_part(b, carried) == model_part(b, other),
        model_part(b, carried) is Some,
        (model_part(b, carried)->0).signature == text::opt(b->ToolUse_0.shared.signature),
{
}

/// A text of a user without a signature takes the last one before it.
pub proof fn law_user_texts_carry_signatures_forward(
    v: Seq<UserContentBlock>,
    b: UserContentBlock,
    calls: Seq<(Seq<char>, Seq<char>)>,
)
    requires
        b is Text,
        b->Text_0.shared.signature is None,
    ensures
        user_parts(v.push(b), calls) == user_parts(v, calls).push(
            text_part(b->Text_0.text@, user_signature(v)),
        ),
{
    let w = v.push(b);
    assert(w.take(v.len() as int + 1) =~= w);
    assert(w.drop_last() =~= v);
    assert forall|i: int| 0 <= i < v.len() implies w.take(i + 1) == #[trigger] v.take(i + 1) by {
        assert(w.take(i + 1) =~= v.take(i + 1));
    }
    assert forall|i: int| 0 <= i < v.len() implies user_parts(w, calls)[i] == user_parts(
        v,
        calls,
    )[i] by {
        assert(v.take(i + 1) == w.take(i + 1));
    }
    assert(user_parts(w, calls) =~= user_parts(v, calls).push(
        text_part(b->Text_0.text@, user_signature(v)),
    ));
}

/// A text of the model without a signature takes the last one before it.
pub proof fn law_texts_carry_signatures_forward(
    v: Seq<AssistantContentBlock>,
    b: AssistantContentBlock,
)
    requires
        b is Text,
        b->Text_0.shared.signature is None,
    ensures
        model_parts(v.push(b)) == model_parts(v).push(
            text_part(b->Text_0.text@, model_signature(v)),
        ),
{
    assert(v.push(b).drop_last() =~= v);
}

/// Every message becomes one content, and each result names the function of its call.
pub proof fn law_results_name_their_function(
    v: Seq<StorageMessage>,
    i: int,
    k: int,
    name: Seq<char>,
)
    requires
        0 <= i < v.len(),
        v[i].content is UserBlocks,
        0 <= k < v[i].content->UserBlocks_0@.len(),
        v[i].content->UserBlocks_0@[k] is ToolResult,
        called(calls(v), v[i].content->UserBlocks_0@[k]->ToolResult_0.tool_use_id@) == Some(name),
    ensures
        contents(v).len() == v.len(),
        contents(v)[i].parts[k].response is Some,
        (contents(v)[i].parts[k].response->0).name == name,
{
}

fn make_user_part(
    b: &UserContentBlock,
    carried: &Option<String>,
    calls: &Vec<(String, String)>,
) -> (r: GeminiPart)
    ensures
        r@ == user_part(*b, text::opt(*carried), text::pair_texts(calls@)),
{
    match b {
        UserContentBlock::Text(t) => make_text(t.text.as_str(), text::copy_opt(carried)),
        UserContentBlock::Image(i) => make_image(
            &i.source,
            text::copy_opt(&i.shared.signature),
        ),
        UserContentBlock::Document(d) => make_document(
            &d.source,
            text::copy_opt(&d.shared.signature),
        ),
        UserContentBlock::ToolResult(r) => {
            let name = match called_name(calls, r.tool_use_id.as_str()) {
                Some(n) => n,
                None => r.tool_use_id.clone(),
            };
            let mut response = Json::object();
            let t = make_result_text(&r.content);
            response.put("result", Json::str(t.as_str()));
            let mut p = make_blank(None);
            p.function_response =
            Some(GeminiFunctionResponse { name, response, id: Some(r.tool_use_id.clone()) });
            p
        },
    }
}

fn make_model_part(b: &AssistantContentBlock, carried: &Option<String>) -> (r: Option<GeminiPart>)
    ensures
        r matches Some(p) ==> model_part(*b, text::opt(*carried)) == Some(p@),
        r is None ==> model_part(*b, text::opt(*carried)) is None,
{
    match b {
        AssistantContentBlock::Text(t) => Some(
            make_text(t.text.as_str(), text::copy_opt(carried)),
        ),
        AssistantContentBlock::Thinking(t) => {
            let mut p = make_text(t.thinking.as_str(), Some(t.signature.clone()));
            p.thought = Some(true);
            Some(p)
        },
        AssistantContentBlock::ToolUse(t) => {
            let mut p = make_blank(text::copy_opt(&t.shared.signature));
            p.function_call =
            Some(
                GeminiFunctionCall {
                    name: t.name.clone(),
                    args: Some(t.input.copy()),
                    id: Some(t.id.clone()),
                },
            );
            Some(p)
        },
        AssistantContentBlock::Image(i) => Some(
            make_image(&i.source, text::copy_opt(&i.shared.signature)),
        ),
        AssistantContentBlock::Document(d) => match &d.source {
            DocumentSource::Text { text } => Some(
                make_text(text.as_str(), text::copy_opt(&d.shared.signature)),
            ),
            _ => None,
        },
        AssistantContentBlock::RedactedThinking(_) => None,
    }
}

fn push_part(v: &mut Vec<GeminiPart>, p: GeminiPart)
    ensures
        part_values(final(v)@) == part_values(old(v)@).push(p@),
{
    v.push(p);
    assert(part_values(v@) =~= part_values(old(v)@).push(p@));
}

/// The parts of a message.
pub fn convert_content_to_gemini_parts(
    c: &MessageContent,
    calls: &Vec<(String, String)>,
) -> (r: Vec<GeminiPart>)
    ensures
        part_values(r@) == content_parts(*c, text::pair_texts(calls@)),
{
    let mut out: Vec<GeminiPart> = Vec::new();
    assert(part_values(out@) =~= Seq::empty());
    match c {
        MessageContent::Text(t) => {
            push_part(&mut out, make_text(t.as_str(), None));
            assert(part_values(out@) =~= seq![text_part(t@, None)]);
        },
        MessageContent::UserBlocks(v) => {
            let mut carried: Option<String> = None;
            let mut i: usize = 0;
            let ghost ps = user_parts(v@, text::pair_texts(calls@));
            assert(part_values(out@) =~= ps.take(0));
            while i < v.len()
                invariant
                    i <= v@.len(),
                    ps == user_parts(v@, text::pair_texts(calls@)),
                    text::opt(carried) == user_signature(v@.take(i as int)),
                    part_values(out@) == ps.take(i as int),
                decreases v@.len() - i,
            {
                assert(v@.take(i + 1).drop_last() =~= v@.take(i as int));
                if let UserContentBlock::Text(t) = &v[i] {
                    if let Some(s) = &t.shared.signature {
                        carried = Some(s.clone());
                    }
                }
                let p = make_user_part(&v[i], &carried, calls);
                assert(ps[i as int] == p@);
                push_part(&mut out, p);
                assert(part_values(out@) =~= ps.take(i + 1));
                i = i + 1;
            }
            assert(ps.take(i as int) =~= ps);
        },
        MessageContent::AssistantBlocks(v) => {
            let mut carried: Option<String> = None;
            let mut i: usize = 0;
            while i < v.len()
                invariant
                    i <= v@.len(),
                    text::opt(carried) == model_signature(v@.take(i as int)),
                    part_values(out@) == model_parts(v@.take(i as int)),
                decreases v@.len() - i,
            {
                assert(v@.take(i + 1).drop_last() =~= v@.take(i as int));
                match &v[i] {
                    AssistantContentBlock::Text(t) => {
                        if let Some(s) = &t.shared.signature {
                            carried = Some(s.clone());
                        }
                    },
                    AssistantContentBlock::ToolUse(t) => {
                        if let Some(s) = &t.shared.signature {
                            carried = Some(s.clone());
                        }
                    },
                    _ => {},
                }
                if let Some(p) = make_model_part(&v[i], &carried) {
                    push_part(&mut out, p);
                }
                i = i + 1;
            }
            assert(v@.take(i as int) =~= v@);
        },
    }
    out
}

/// The contents of a conversation.
pub fn convert_to_gemini_contents(messages: &Vec<StorageMessage>) -> (r: Vec<GeminiContent>)
    ensures
        content_values(r@) == contents(messages@),
{
    let names = build_tool_use_id_to_name(messages);
    let mut out: Vec<GeminiContent> = Vec::new();
    let ghost cs = contents(messages@);
    let mut i: usize = 0;
    assert(content_values(out@) =~= cs.take(0));
    while i < messages.len()
        invariant
            i <= messages@.len(),
            cs == contents(messages@),
            text::pair_texts(names@) == calls(messages@),
            content_values(out@) == cs.take(i as int),
        decreases messages@.len() - i,
    {
        let ghost before = out@;
        let role = match messages[i].role {
            MessageRole::User => "user".to_owned(),
            MessageRole::Assistant => "model".to_owned(),
        };
        let parts = convert_content_to_gemini_parts(&messages[i].content, &names);
        let c = GeminiContent { role, parts };
        assert(cs[i as int] == c@);
        out.push(c);
        assert(content_values(out@) =~= content_values(before).push(c@));
        assert(content_values(out@) =~= cs.take(i + 1));
        i = i + 1;
    }
    assert(cs.take(i as int) =~= cs);
    out
}

// ---------------------------------------------------------------------------
// JSON
// ---------------------------------------------------------------------------

/// An optional text as a tree.
pub open spec fn maybe_str(t: Option<Seq<char>>) -> Option<Tree> {
    match t {
        Some(s) => Some(Tree::Str(s)),
        None => None,
    }
}

fn put_maybe_text(m: &mut Json, key: &str, t: &Option<String>)
    ensures
        final(m)@ == minimax::put_opt(old(m)@, key@, maybe_str(text::opt(*t))),
{
    if let Some(s) = t {
        m.put(key, Json::str(s.as_str()));
    }
}

/// A function call as JSON.
pub open spec fn call_tree(c: FunctionCall) -> Tree {
    minimax::put_opt(
        minimax::put_opt(json::empty_obj().put("name"@, Tree::Str(c.name)), "args"@, c.args),
        "id"@,
        maybe_str(c.id),
    )
}

/// A function response as JSON.
pub open spec fn response_tree(r: FunctionResponse) -> Tree {
    minimax::put_opt(
        json::empty_obj().put("name"@, Tree::Str(r.name)).put("response"@, r.response),
        "id"@,
        maybe_str(r.id),
    )
}

/// A part as JSON: the members that it has, in the form of the endpoint.
pub open spec fn part_tree(p: Part) -> Tree {
    let a = minimax::put_opt(json::empty_obj(), "text"@, maybe_str(p.text));
    let b = match p.thought {
        Some(x) => a.put("thought"@, Tree::Bool(x)),
        None => a,
    };
    let c = minimax::put_opt(b, "thoughtSignature"@, maybe_str(p.signature));
    let d = match p.call {
        Some(x) => c.put("functionCall"@, call_tree(x)),
        None => c,
    };
    let e = match p.response {
        Some(x) => d.put("functionResponse"@, response_tree(x)),
        None => d,
    };
    let f = match p.inline_data {
        Some(x) => e.put(
            "inlineData"@,
            json::empty_obj().put("mimeType"@, Tree::Str(x.0)).put("data"@, Tree::Str(x.1)),
        ),
        None => e,
    };
    match p.file_data {
        Some(x) => f.put(
            "fileData"@,
            json::empty_obj().put("fileUri"@, Tree::Str(x.0)).put("mimeType"@, Tree::Str(x.1)),
        ),
        None => f,
    }
}

/// A content as JSON.
pub open spec fn content_tree(c: Content) -> Tree {
    json::empty_obj().put("role"@, Tree::Str(c.role)).put(
        "parts"@,
        Tree::Arr(c.parts.map_values(|p: Part| part_tree(p))),
    )
}

/// The contents of a conversation as JSON.
pub open spec fn contents_tree(v: Seq<Content>) -> Tree {
    Tree::Arr(v.map_values(|c: Content| content_tree(c)))
}

fn make_call_json(c: &GeminiFunctionCall) -> (r: Json)
    ensures
        r@ == call_tree(
            FunctionCall { name: c.name@, args: types::opt_tree(c.args), id: text::opt(c.id) },
        ),
{
    let mut m = Json::object();
    m.put("name", Json::str(c.name.as_str()));
    if let Some(a) = &c.args {
        m.put("args", a.copy());
    }
    put_maybe_text(&mut m, "id", &c.id);
    m
}

fn make_part_json(p: &GeminiPart) -> (r: Json)
    ensures
        r@ == part_tree(p@),
{
    let mut m = Json::object();
    put_maybe_text(&mut m, "text", &p.text);
    if let Some(b) = p.thought {
        m.put("thought", Json::Bool(b));
    }
    put_maybe_text(&mut m, "thoughtSignature", &p.thought_signature);
    if let Some(c) = &p.function_call {
        m.put("functionCall", make_call_json(c));
    }
    if let Some(f) = &p.function_response {
        let mut x = Json::object();
        x.put("name", Json::str(f.name.as_str()));
        x.put("response", f.response.copy());
        put_maybe_text(&mut x, "id", &f.id);
        m.put("functionResponse", x);
    }
    if let Some(d) = &p.inline_data {
        let mut x = Json::object();
        x.put("mimeType", Json::str(d.mime_type.as_str()));
        x.put("data", Json::str(d.data.as_str()));
        m.put("inlineData", x);
    }
    if let Some(d) = &p.file_data {
        let mut x = Json::object();
        x.put("fileUri", Json::str(d.file_uri.as_str()));
        x.put("mimeType", Json::str(d.mime_type.as_str()));
        m.put("fileData", x);
    }
    m
}

fn make_content_json(c: &GeminiContent) -> (r: Json)
    ensures
        r@ == content_tree(c@),
{
    let mut parts = chat_format::no_json();
    let ghost ts = c@.parts.map_values(|p: Part| part_tree(p));
    let mut i: usize = 0;
    while i < c.parts.len()
        invariant
            i <= c.parts@.len(),
            ts == c@.parts.map_values(|p: Part| part_tree(p)),
            json::trees(parts@) =~= ts.take(i as int),
        decreases c.parts@.len() - i,
    {
        let p = make_part_json(&c.parts[i]);
        assert(ts[i as int] == p@);
        chat_format::push_json(&mut parts, p);
        i = i + 1;
    }
    assert(ts.take(i as int) =~= ts);
    let mut m = Json::object();
    m.put("role", Json::str(c.role.as_str()));
    m.put("parts", Json::array(parts));
    m
}

/// The contents of a conversation as JSON.
pub fn make_contents_json(v: &Vec<GeminiContent>) -> (r: Json)
    ensures
        r@ == contents_tree(content_values(v@)),
{
    let mut out = chat_format::no_json();
    let ghost ts = content_values(v@).map_values(|c: Content| content_tree(c));
    let mut i: usize = 0;
    while i < v.len()
        invariant
            i <= v@.len(),
            ts == content_values(v@).map_values(|c: Content| content_tree(c)),
            json::trees(out@) =~= ts.take(i as int),
        decreases v@.len() - i,
    {
        let c = make_content_json(&v[i]);
        assert(ts[i as int] == c@);
        chat_format::push_json(&mut out, c);
        i = i + 1;
    }
    assert(ts.take(i as int) =~= ts);
    Json::array(out)
}

} // verus!
