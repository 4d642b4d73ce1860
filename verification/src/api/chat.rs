//! The decisions of the chat completions endpoint: which requests are
//! refused, how failures are reported to the client, and the body of a
//! completed chat.
use vstd::prelude::*;

use crate::config::{model_provider, RoutingTable};
use crate::providers::{provider_error_text, ProviderError};
use crate::types::normalized::{NormalizedChatResponse, StreamChunk};
use crate::types::openai::{ChatChoice, ChatCompletionResponse, ChatMessage, Usage};

verus! {

/// An error answer: HTTP status, message and OpenAI error type.
#[derive(Debug)]
pub struct ApiError {
    pub status: u16,
    pub message: String,
    pub error_type: String,
}

pub const INVALID_REQUEST: &'static str = "invalid_request_error";

pub const UPSTREAM_ERROR: &'static str = "upstream_error";

/// The message for a model that is not configured.
pub open spec fn unknown_model_text(model: Seq<char>) -> Seq<char> {
    "model '"@ + model + "' not found"@
}

/// Refuses a request for a model that is not configured: 400, with an
/// `invalid_request_error`.
pub fn check_model(table: &RoutingTable, model: &String) -> (r: Result<(), ApiError>)
    ensures
        model_provider(table@.models, model@) is Some ==> r is Ok,
        model_provider(table@.models, model@) is None ==> (r matches Err(e) && e.status == 400
            && e.message@ == unknown_model_text(model@) && e.error_type@ == INVALID_REQUEST@),
{
    if table.has_model(model) {
        Ok(())
    } else {
        let mut message = String::from_str("model '");
        message.append(model.as_str());
        message.append("' not found");
        Err(ApiError { status: 400, message, error_type: String::from_str(INVALID_REQUEST) })
    }
}

/// A failed completion: 502, with the provider's error and an
/// `upstream_error`.
pub fn upstream_failure(err: &ProviderError) -> (r: ApiError)
    ensures
        r.status == 502,
        r.message@ == provider_error_text(*err),
        r.error_type@ == UPSTREAM_ERROR@,
{
    ApiError { status: 502, message: err.message(), error_type: String::from_str(UPSTREAM_ERROR) }
}

/// The delta that reports a failed stream: `[error] ` and the error.
pub fn stream_failure_chunk(err: &ProviderError) -> (r: StreamChunk)
    ensures
        r.content_delta@ == "[error] "@ + provider_error_text(*err),
{
    let mut d = String::from_str("[error] ");
    d.append(err.message().as_str());
    StreamChunk { content_delta: d }
}

/// Whether a request asks for a streamed reply: only when it says so.
pub fn wants_stream(stream: Option<bool>) -> (r: bool)
    ensures
        r == (stream == Some(true)),
{
    match stream {
        Some(s) => s,
        None => false,
    }
}

pub const CHAT_COMPLETION_OBJECT: &'static str = "chat.completion";

pub const ASSISTANT_ROLE: &'static str = "assistant";

/// The token counts of a chat: the prompt's, the completion's, and their
/// sum.
pub fn chat_usage(prompt_tokens: u64, completion_tokens: u64) -> (r: Usage)
    requires
        prompt_tokens + completion_tokens <= u64::MAX,
    ensures
        r.prompt_tokens == prompt_tokens,
        r.completion_tokens == completion_tokens,
        r.total_tokens == prompt_tokens + completion_tokens,
{
    Usage { prompt_tokens, completion_tokens, total_tokens: prompt_tokens + completion_tokens }
}

/// The body of a completed chat: a `chat.completion` with the given id,
/// time and model, one choice at index 0 holding the provider's reply as
/// the assistant's message with the provider's finish reason, and the
/// token counts.
pub fn completion_body(
    id: String,
    created: i64,
    model: String,
    reply: NormalizedChatResponse,
    prompt_tokens: u64,
    completion_tokens: u64,
) -> (r: ChatCompletionResponse)
    requires
        prompt_tokens + completion_tokens <= u64::MAX,
    ensures
        r.id@ == id@,
        r.object@ == CHAT_COMPLETION_OBJECT@,
        r.created == created,
        r.model@ == model@,
        r.choices@.len() == 1,
        r.choices@[0].index == 0,
        r.choices@[0].message.role@ == ASSISTANT_ROLE@,
        r.choices@[0].message.content@ == reply.content@,
        r.choices@[0].finish_reason@ == reply.finish_reason@,
        r.usage.prompt_tokens == prompt_tokens,
        r.usage.completion_tokens == completion_tokens,
        r.usage.total_tokens == prompt_tokens + completion_tokens,
{
    let choice = ChatChoice {
        index: 0,
        message: ChatMessage { role: String::from_str(ASSISTANT_ROLE), content: reply.content },
        finish_reason: reply.finish_reason,
    };
    let mut choices: Vec<ChatChoice> = Vec::new();
    choices.push(choice);
    ChatCompletionResponse {
        id,
        object: String::from_str(CHAT_COMPLETION_OBJECT),
        created,
        model,
        choices,
        usage: chat_usage(prompt_tokens, completion_tokens),
    }
}

} // verus!
