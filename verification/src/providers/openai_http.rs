//! An OpenAI-compatible HTTP provider: its endpoint, how its reply is read,
//! and how a reply is cut into stream deltas.
use vstd::prelude::*;
use vstd::string::StringSliceAdditionalSpecFns;

use crate::providers::{chunks_of, replies, ProviderError};
use crate::text::{lemma_trim_end_char_appended, trim_end_char, trim_end_matching};
use crate::types::normalized::NormalizedChatResponse;

verus! {

/// The path of the chat endpoint below the base URL.
pub const CHAT_COMPLETIONS_PATH: &'static str = "/chat/completions";

/// The chat endpoint of a base URL: its trailing slashes dropped, then the
/// endpoint's path.
pub open spec fn chat_completions_url_text(base_url: Seq<char>) -> Seq<char> {
    trim_end_char(base_url, '/') + CHAT_COMPLETIONS_PATH@
}

/// The chat endpoint of a base URL.
pub fn chat_completions_url(base_url: &str) -> (r: String)
    ensures
        r@ == chat_completions_url_text(base_url@),
{
    let mut r = trim_end_matching(base_url, '/');
    r.append(CHAT_COMPLETIONS_PATH);
    r
}

/// The chat endpoint is the base URL, one slash, and `chat/completions`,
/// however many slashes the base URL was given with: for a base URL that
/// does not end in `/`, adding any number of trailing slashes to it gives
/// the same endpoint.
pub proof fn lemma_chat_completions_url(base: Seq<char>, slashes: nat)
    requires
        base.len() == 0 || base.last() != '/',
    ensures
        chat_completions_url_text(base + Seq::new(slashes, |k: int| '/')) == base
            + "/chat/completions"@,
{
    reveal_strlit("/chat/completions");
    lemma_trim_end_char_appended(base, '/', slashes);
}

/// An HTTP status in the success class (2xx).
pub open spec fn is_success_status(status: u16) -> bool {
    200 <= status <= 299
}

/// The text of an optional string, or `default` when there is none.
pub open spec fn text_or(o: Option<String>, default: Seq<char>) -> Seq<char> {
    match o {
        Some(s) => s@,
        None => default,
    }
}

/// The reply of an OpenAI-compatible service, given its HTTP status, its
/// body as text, and the first choice's content and finish reason when the
/// body has them: a non-2xx status is an error carrying the body; otherwise
/// the content (empty when missing) and the finish reason (`stop` when
/// missing).
pub fn interpret_openai_reply(
    status: u16,
    body_text: &str,
    content: Option<String>,
    finish_reason: Option<String>,
) -> (r: Result<NormalizedChatResponse, ProviderError>)
    ensures
        !is_success_status(status) ==> (r matches Err(ProviderError::Http(m)) && m@ == body_text@),
        is_success_status(status) ==> replies(
            r,
            text_or(content, seq![]),
            text_or(finish_reason, "stop"@),
        ),
{
    if !(200 <= status && status <= 299) {
        return Err(ProviderError::Http(String::from_str(body_text)));
    }
    let content = match content {
        Some(c) => c,
        None => String::new(),
    };
    let finish_reason = match finish_reason {
        Some(f) => f,
        None => String::from_str("stop"),
    };
    Ok(NormalizedChatResponse { content, finish_reason })
}

/// The bytes of a streamed HTTP reply go out in pieces of 64.
pub const HTTP_STREAM_BYTES: usize = 64;

/// The bytes `v[from..to]`.
pub fn bytes_between(v: &[u8], from: usize, to: usize) -> (r: Vec<u8>)
    requires
        from <= to <= v@.len(),
    ensures
        r@ == v@.subrange(from as int, to as int),
{
    let mut r: Vec<u8> = Vec::new();
    let mut i = from;
    while i < to
        invariant
            from <= i <= to <= v@.len(),
            r@ == v@.subrange(from as int, i as int),
        decreases to - i,
    {
        r.push(v[i]);
        i = i + 1;
        assert(r@ =~= v@.subrange(from as int, i as int));
    }
    r
}

/// `bytes` cut into pieces of `n` bytes, the last possibly shorter.
pub fn split_bytes(bytes: &[u8], n: usize) -> (r: Vec<Vec<u8>>)
    requires
        n > 0,
    ensures
        r@.map_values(|c: Vec<u8>| c@) == chunks_of(bytes@, n as nat),
{
    let len = bytes.len();
    let mut out: Vec<Vec<u8>> = Vec::new();
    let mut start: usize = 0;
    assert(bytes@.skip(0) =~= bytes@);
    while start < len
        invariant
            0 < n,
            len == bytes@.len(),
            start <= len,
            out@.map_values(|c: Vec<u8>| c@) + chunks_of(bytes@.skip(start as int), n as nat)
                == chunks_of(bytes@, n as nat),
        decreases len - start,
    {
        let end = if len - start > n {
            start + n
        } else {
            len
        };
        let piece = bytes_between(bytes, start, end);
        let ghost t = bytes@.skip(start as int);
        let ghost before = out@.map_values(|c: Vec<u8>| c@);
        proof {
            if end < len {
                assert(t.take(n as int) =~= bytes@.subrange(start as int, end as int));
                assert(t.skip(n as int) =~= bytes@.skip(end as int));
            } else {
                assert(t =~= bytes@.subrange(start as int, end as int));
                assert(bytes@.skip(end as int) =~= Seq::<u8>::empty());
            }
        }
        out.push(piece);
        assert(out@.map_values(|c: Vec<u8>| c@) =~= before.push(piece@));
        assert(before + chunks_of(t, n as nat) =~= before.push(piece@) + chunks_of(
            bytes@.skip(end as int),
            n as nat,
        ));
        start = end;
    }
    assert(bytes@.skip(len as int) =~= Seq::<u8>::empty());
    assert(out@.map_values(|c: Vec<u8>| c@) + chunks_of(Seq::<u8>::empty(), n as nat)
        =~= out@.map_values(|c: Vec<u8>| c@));
    out
}

/// The byte pieces an HTTP reply is streamed in: its UTF-8 encoding cut
/// every 64 bytes (a piece may end inside a character).
pub fn http_stream_pieces(content: &str) -> (r: Vec<Vec<u8>>)
    ensures
        r@.map_values(|c: Vec<u8>| c@) == chunks_of(content.spec_bytes(), HTTP_STREAM_BYTES as nat),
{
    split_bytes(content.as_bytes(), HTTP_STREAM_BYTES)
}

} // verus!
