//! Upstream providers: the error type they share and the chunking that
//! turns a whole reply into stream deltas.
use vstd::prelude::*;

use crate::text::{chars_of, string_from_chars};
use crate::types::normalized::NormalizedChatResponse;

pub mod cli;
pub mod gemini_http;
pub mod openai_http;

verus! {

/// Why a provider call failed.
#[derive(Debug, Clone)]
pub enum ProviderError {
    /// The upstream HTTP service failed or answered with an error status.
    Http(String),
    /// The command-line tool could not run or exited unsuccessfully.
    Cli(String),
    /// The upstream reply could not be decoded.
    Parse(String),
    /// The request cannot be routed with the current configuration.
    Config(String),
}

/// The text of an error as users see it: a prefix naming its kind, then
/// its detail.
pub open spec fn provider_error_text(e: ProviderError) -> Seq<char> {
    match e {
        ProviderError::Http(m) => "http upstream error: "@ + m@,
        ProviderError::Cli(m) => "cli execution error: "@ + m@,
        ProviderError::Parse(m) => "parse error: "@ + m@,
        ProviderError::Config(m) => "config error: "@ + m@,
    }
}

/// Whether `r` is a reply with this content and finish reason.
pub open spec fn replies(
    r: Result<NormalizedChatResponse, ProviderError>,
    content: Seq<char>,
    finish_reason: Seq<char>,
) -> bool {
    match r {
        Ok(resp) => resp.content@ == content && resp.finish_reason@ == finish_reason,
        Err(_) => false,
    }
}

impl ProviderError {
    /// The text of the error, as it is shown to API clients.
    pub fn message(&self) -> (r: String)
        ensures
            r@ == provider_error_text(*self),
    {
        let (prefix, detail) = match self {
            ProviderError::Http(m) => ("http upstream error: ", m),
            ProviderError::Cli(m) => ("cli execution error: ", m),
            ProviderError::Parse(m) => ("parse error: ", m),
            ProviderError::Config(m) => ("config error: ", m),
        };
        let mut r = String::new();
        r.append(prefix);
        r.append(detail.as_str());
        assert(r@ =~= provider_error_text(*self));
        r
    }
}

/// `s` cut into consecutive pieces of `n` items, the last one possibly
/// shorter; no pieces at all when `n` is zero or `s` is empty.
pub open spec fn chunks_of<A>(s: Seq<A>, n: nat) -> Seq<Seq<A>>
    decreases s.len(),
{
    if n == 0 || s.len() == 0 {
        seq![]
    } else if s.len() <= n {
        seq![s]
    } else {
        seq![s.take(n as int)] + chunks_of(s.skip(n as int), n)
    }
}

/// The texts of a list of strings.
pub open spec fn string_views(v: Seq<String>) -> Seq<Seq<char>> {
    v.map_values(|c: String| c@)
}

proof fn lemma_chunks_step<A>(s: Seq<A>, n: nat, start: int)
    requires
        n > 0,
        0 <= start < s.len(),
    ensures
        start + n < s.len() ==> chunks_of(s.skip(start), n) == seq![s.subrange(start, start + n)]
            + chunks_of(s.skip(start + n), n),
        start + n >= s.len() ==> chunks_of(s.skip(start), n) == seq![s.subrange(start, s.len() as int)],
{
    let t = s.skip(start);
    if start + n < s.len() {
        assert(t.take(n as int) =~= s.subrange(start, start + n));
        assert(t.skip(n as int) =~= s.skip(start + n));
    } else {
        assert(t =~= s.subrange(start, s.len() as int));
    }
}

/// Splits `text` into pieces of at most `max_chars` characters, in order;
/// every piece but the last holds exactly `max_chars` characters. A zero
/// `max_chars` gives no pieces.
pub fn split_text_by_char_count(text: &str, max_chars: usize) -> (chunks: Vec<String>)
    ensures
        string_views(chunks@) == chunks_of(text@, max_chars as nat),
{
    if max_chars == 0 {
        return Vec::new();
    }
    let v = chars_of(text);
    let len = v.len();
    let mut chunks: Vec<String> = Vec::new();
    let mut start: usize = 0;
    assert(v@.skip(0) =~= v@);
    while start < len
        invariant
            0 < max_chars,
            len == v@.len(),
            v@ == text@,
            start <= len,
            string_views(chunks@) + chunks_of(v@.skip(start as int), max_chars as nat)
                == chunks_of(v@, max_chars as nat),
        decreases len - start,
    {
        let end = if len - start > max_chars {
            start + max_chars
        } else {
            len
        };
        let piece = string_from_chars(&v, start, end);
        proof {
            lemma_chunks_step(v@, max_chars as nat, start as int);
        }
        let ghost before = string_views(chunks@);
        chunks.push(piece);
        assert(string_views(chunks@) =~= before.push(piece@));
        proof {
            if end < len {
                assert(before + chunks_of(v@.skip(start as int), max_chars as nat) =~= before.push(
                    piece@,
                ) + chunks_of(v@.skip(end as int), max_chars as nat));
            } else {
                assert(v@.skip(end as int) =~= Seq::<char>::empty());
                assert(before + chunks_of(v@.skip(start as int), max_chars as nat) =~= before.push(
                    piece@,
                ) + chunks_of(v@.skip(end as int), max_chars as nat));
            }
        }
        start = end;
    }
    assert(v@.skip(len as int) =~= Seq::<char>::empty());
    assert(string_views(chunks@) + chunks_of(Seq::<char>::empty(), max_chars as nat) =~= string_views(chunks@));
    chunks
}

/// Rejoining the pieces gives back the text: for a positive piece size,
/// concatenating the pieces in order yields the whole sequence.
pub proof fn lemma_chunks_rejoin<A>(s: Seq<A>, n: nat)
    requires
        n > 0,
    ensures
        chunks_of(s, n).flatten() == s,
    decreases s.len(),
{
    if s.len() == 0 {
        assert(s =~= Seq::<A>::empty());
    } else if s.len() <= n {
        assert(chunks_of(s, n) =~= seq![s]);
        assert(seq![s].drop_first().flatten() =~= Seq::<A>::empty());
        assert(seq![s].drop_first() =~= Seq::<Seq<A>>::empty());
        assert(s + Seq::<A>::empty() =~= s);
    } else {
        lemma_chunks_rejoin(s.skip(n as int), n);
        let c = chunks_of(s, n);
        assert(c.first() == s.take(n as int));
        assert(c.drop_first() =~= chunks_of(s.skip(n as int), n));
        assert(c.flatten() == c.first() + c.drop_first().flatten());
        assert(s.take(n as int) + s.skip(n as int) =~= s);
    }
}

/// Every piece is non-empty and holds at most `n` items, and every piece
/// but the last holds exactly `n`.
pub proof fn lemma_chunk_sizes<A>(s: Seq<A>, n: nat)
    requires
        n > 0,
    ensures
        forall|i: int|
            0 <= i < chunks_of(s, n).len() ==> 0 < (#[trigger] chunks_of(s, n)[i]).len() <= n,
        forall|i: int|
            0 <= i < chunks_of(s, n).len() - 1 ==> (#[trigger] chunks_of(s, n)[i]).len() == n,
    decreases s.len(),
{
    if s.len() > n {
        lemma_chunk_sizes(s.skip(n as int), n);
        let c = chunks_of(s, n);
        let r = chunks_of(s.skip(n as int), n);
        assert forall|i: int| 0 < i < c.len() implies c[i] == r[i - 1] by {}
    }
}

/// The number of pieces is the length divided by the piece size, rounded up.
pub proof fn lemma_chunk_count<A>(s: Seq<A>, n: nat)
    requires
        n > 0,
    ensures
        chunks_of(s, n).len() == (s.len() + n - 1) / (n as int),
    decreases s.len(),
{
    if s.len() == 0 {
        assert((n - 1) / (n as int) == 0) by (nonlinear_arith)
            requires
                n > 0,
        ;
    } else if s.len() <= n {
        assert((s.len() + n - 1) / (n as int) == 1) by (nonlinear_arith)
            requires
                n > 0,
                0 < s.len() <= n,
        ;
    } else {
        lemma_chunk_count(s.skip(n as int), n);
        let m = s.len() - n;
        assert((m + n + n - 1) / (n as int) == (m + n - 1) / (n as int) + 1) by (nonlinear_arith)
            requires
                n > 0,
                m > 0,
        ;
    }
}

} // verus!
