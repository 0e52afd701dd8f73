//! Single-question exchanges with the OpenAI responses API: the request that
//! is sent and how the reply becomes an answer or an error.
use vstd::prelude::*;
use crate::error::{ApiError, UpstreamReply, upstream_value, BAD_GATEWAY};
use crate::text::{trim, trim_spec, chars_of, push_char};

verus! {

/// Model used when the caller names none.
pub const DEFAULT_MODEL: &'static str = "gpt-4.1";

/// Endpoint used when the caller names none.
pub const DEFAULT_URL: &'static str = "https://api.openai.com/v1/responses";

/// Body of a request: the model and the input text.
pub struct ChatGPTRequest<'a> {
    pub model: &'a str,
    pub input: &'a str,
}

/// Body of a reply.
pub struct ChatGPTResponse {
    pub output: Vec<ChatGPTOutput>,
    pub status: String,
    pub error: Option<String>,
    pub model: String,
    pub usage: ChatGPTUsage,
}

/// One output message of a reply (`kind` is the message type).
pub struct ChatGPTOutput {
    pub content: Vec<ChatGPTContent>,
    pub id: String,
    pub kind: String,
    pub status: String,
    pub role: String,
}

/// One content part of an output message (`kind` is the part type).
pub struct ChatGPTContent {
    pub text: String,
    pub kind: String,
}

/// Token counts of a reply.
pub struct ChatGPTUsage {
    pub input_tokens: i32,
    pub output_tokens: i32,
    pub total_tokens: i32,
}

/// Message of the error for a reply without answer text.
pub const MISSING_TEXT_MESSAGE: &'static str =
    "missing `output[0].content[0].text` in upstream response";

/// The text with every line feed replaced by a space.
pub open spec fn newlines_to_spaces(s: Seq<char>) -> Seq<char> {
    s.map_values(|c: char| if c == '\n' { ' ' } else { c })
}

/// The input sent for a question: line feeds become spaces, and surrounding
/// whitespace is removed.
pub open spec fn request_input_spec(query: Seq<char>) -> Seq<char> {
    trim_spec(newlines_to_spaces(query))
}

/// Prepares the question text that is sent to the model.
pub fn request_input(query: &str) -> (res: String)
    ensures
        res@ == request_input_spec(query@),
{
    let cs = chars_of(query);
    let mut flat = String::new();
    let mut i: usize = 0;
    while i < cs.len()
        invariant
            cs@ == query@,
            i <= cs@.len(),
            flat@ == newlines_to_spaces(query@).take(i as int),
        decreases cs@.len() - i,
    {
        let c = cs[i];
        let d = if c == '\n' {
            ' '
        } else {
            c
        };
        push_char(&mut flat, d);
        proof {
            assert(newlines_to_spaces(query@).take(i + 1) =~= newlines_to_spaces(query@).take(
                i as int,
            ).push(d));
        }
        i += 1;
    }
    proof {
        assert(newlines_to_spaces(query@).take(i as int) =~= newlines_to_spaces(query@));
    }
    trim(flat.as_str()).to_owned()
}

/// The model to use: the one named, or the default.
pub fn model_or_default(model: Option<&str>) -> (res: &str)
    ensures
        res@ == (match model {
            Some(m) => m@,
            None => DEFAULT_MODEL@,
        }),
{
    match model {
        Some(m) => m,
        None => DEFAULT_MODEL,
    }
}

/// The endpoint to use: the one named, or the default.
pub fn url_or_default(url: Option<&str>) -> (res: &str)
    ensures
        res@ == (match url {
            Some(u) => u@,
            None => DEFAULT_URL@,
        }),
{
    match url {
        Some(u) => u,
        None => DEFAULT_URL,
    }
}

/// The answer text of a reply body: the text of the first content part of
/// the first output message, if there is one.
pub open spec fn answer_text(resp: ChatGPTResponse) -> Option<Seq<char>> {
    if resp.output@.len() > 0 && resp.output@[0].content@.len() > 0 {
        Some(resp.output@[0].content@[0].text@)
    } else {
        None
    }
}

/// The model's answer for an exchange: the answer text of a decoded reply;
/// `502 Bad Gateway` for an unreachable service, a non-success status (with
/// the body as message), an undecodable body, or a reply without answer text.
pub fn answer(reply: UpstreamReply<ChatGPTResponse>) -> (res: Result<String, ApiError>)
    ensures
        match reply {
            UpstreamReply::Unreachable(m) => res matches Err(e) && e.status == BAD_GATEWAY
                && e.message@ == m@,
            UpstreamReply::Rejected { body, .. } => res matches Err(e) && e.status == BAD_GATEWAY
                && e.message@ == body@,
            UpstreamReply::Malformed(m) => res matches Err(e) && e.status == BAD_GATEWAY
                && e.message@ == m@,
            UpstreamReply::Received(resp) => match answer_text(resp) {
                Some(t) => res matches Ok(a) && a@ == t,
                None => res matches Err(e) && e.status == BAD_GATEWAY && e.message@
                    == MISSING_TEXT_MESSAGE@,
            },
        },
{
    let resp = match upstream_value(reply) {
        Ok(r) => r,
        Err(e) => return Err(e),
    };
    if resp.output.len() > 0 && resp.output[0].content.len() > 0 {
        Ok(resp.output[0].content[0].text.clone())
    } else {
        Err(ApiError::new(BAD_GATEWAY, MISSING_TEXT_MESSAGE.to_owned()))
    }
}

} // verus!
