//! A Gemini HTTP provider: its roles, its endpoint, and how its reply is read.
use vstd::prelude::*;

use crate::providers::openai_http::{is_success_status, text_or};
use crate::providers::{replies, ProviderError};
use crate::text::{lemma_trim_end_char_appended, trim_end_char, trim_end_matching};
use crate::types::normalized::NormalizedChatResponse;

verus! {

pub const ASSISTANT_ROLE: &'static str = "assistant";

pub const MODEL_ROLE: &'static str = "model";

pub const USER_ROLE: &'static str = "user";

/// Gemini's name for a chat role: the assistant speaks as `model`, every
/// other role as `user`.
pub open spec fn gemini_role_text(role: Seq<char>) -> Seq<char> {
    if role == ASSISTANT_ROLE@ {
        MODEL_ROLE@
    } else {
        USER_ROLE@
    }
}

/// Gemini's name for a chat role.
pub fn gemini_role(role: &String) -> (r: &'static str)
    ensures
        r@ == gemini_role_text(role@),
{
    if *role == String::from_str(ASSISTANT_ROLE) {
        MODEL_ROLE
    } else {
        USER_ROLE
    }
}

pub const GENERATE_PATH: &'static str = "/v1beta/models/";

pub const GENERATE_ACTION: &'static str = ":generateContent?key=";

/// The endpoint that generates content with `model`, the API key in the
/// query.
pub open spec fn generate_url_text(base_url: Seq<char>, model: Seq<char>, api_key: Seq<char>) -> Seq<
    char,
> {
    trim_end_char(base_url, '/') + GENERATE_PATH@ + model + GENERATE_ACTION@ + api_key
}

/// The endpoint that generates content with `model`.
pub fn generate_url(base_url: &str, model: &str, api_key: &str) -> (r: String)
    ensures
        r@ == generate_url_text(base_url@, model@, api_key@),
{
    let mut r = trim_end_matching(base_url, '/');
    r.append(GENERATE_PATH);
    r.append(model);
    r.append(GENERATE_ACTION);
    r.append(api_key);
    assert(r@ =~= generate_url_text(base_url@, model@, api_key@));
    r
}

/// The generate endpoint is the base URL, one slash, the versioned models
/// path, the model, the action and the key, however many slashes the base
/// URL was given with: for a base URL that does not end in `/`, adding any
/// number of trailing slashes to it gives the same endpoint.
pub proof fn lemma_generate_url(base: Seq<char>, slashes: nat, model: Seq<char>, api_key: Seq<char>)
    requires
        base.len() == 0 || base.last() != '/',
    ensures
        generate_url_text(base + Seq::new(slashes, |k: int| '/'), model, api_key) == base
            + "/v1beta/models/"@ + model + ":generateContent?key="@ + api_key,
{
    reveal_strlit("/v1beta/models/");
    reveal_strlit(":generateContent?key=");
    lemma_trim_end_char_appended(base, '/', slashes);
}

/// The reply of the Gemini service, given its HTTP status, its body as text
/// and the first candidate's first text part when the body has one: a
/// non-2xx status is an error carrying the body; otherwise that text
/// (empty when missing), finished by `stop`.
pub fn interpret_gemini_reply(status: u16, body_text: &str, text: Option<String>) -> (r: Result<
    NormalizedChatResponse,
    ProviderError,
>)
    ensures
        !is_success_status(status) ==> (r matches Err(ProviderError::Http(m)) && m@ == body_text@),
        is_success_status(status) ==> replies(r, text_or(text, seq![]), "stop"@),
{
    if !(200 <= status && status <= 299) {
        return Err(ProviderError::Http(String::from_str(body_text)));
    }
    let content = match text {
        Some(t) => t,
        None => String::new(),
    };
    Ok(NormalizedChatResponse { content, finish_reason: String::from_str("stop") })
}

} // verus!
