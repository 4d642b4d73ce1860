//! A provider that runs a command-line tool with the conversation as its
//! last argument.
use vstd::prelude::*;

use crate::providers::{chunks_of, replies, split_text_by_char_count, string_views, ProviderError};
use crate::text::{to_uppercase_text, trim_seq, trim_text, unicode_uppercase};
use crate::types::normalized::{Message, NormalizedChatResponse, StreamChunk};

verus! {

/// A command-line tool and the arguments it is always given.
pub struct CliAdapter {
    command: String,
    args: Vec<String>,
}

/// One line of the prompt: the role in upper case, a colon, the content.
pub open spec fn prompt_line(m: Message) -> Seq<char> {
    unicode_uppercase(m.role@) + ": "@ + m.content@
}

/// The prompt: one line per message, joined by newlines.
pub open spec fn prompt_text(messages: Seq<Message>) -> Seq<char>
    decreases messages.len(),
{
    if messages.len() == 0 {
        seq![]
    } else if messages.len() == 1 {
        prompt_line(messages[0])
    } else {
        prompt_text(messages.drop_last()) + seq!['\n'] + prompt_line(messages.last())
    }
}

/// The characters a reply is streamed in.
pub const CLI_STREAM_CHARS: usize = 48;

impl CliAdapter {
    /// An adapter that runs `command` with `args`.
    pub fn new(command: String, args: Vec<String>) -> (r: CliAdapter)
        ensures
            r.command_text() == command@,
            r.args_view() == args@,
    {
        CliAdapter { command, args }
    }

    /// The command that is run.
    pub closed spec fn command_text(self) -> Seq<char> {
        self.command@
    }

    /// The arguments given before the prompt.
    pub closed spec fn args_view(self) -> Seq<String> {
        self.args@
    }

    /// The command that is run.
    pub fn command(&self) -> (r: &String)
        ensures
            r@ == self.command_text(),
    {
        &self.command
    }

    /// The arguments given before the prompt.
    pub fn args(&self) -> (r: &Vec<String>)
        ensures
            r@ == self.args_view(),
    {
        &self.args
    }

    /// The prompt handed to the tool.
    pub fn format_prompt(messages: &[Message]) -> (r: String)
        ensures
            r@ == prompt_text(messages@),
    {
        let mut out = String::new();
        let mut i: usize = 0;
        while i < messages.len()
            invariant
                i <= messages@.len(),
                out@ == prompt_text(messages@.take(i as int)),
            decreases messages@.len() - i,
        {
            let m = &messages[i];
            let ghost t = messages@.take(i + 1);
            assert(t.drop_last() =~= messages@.take(i as int));
            assert(t.last() == m);
            if i > 0 {
                crate::text::push_char(&mut out, '\n');
            }
            let role = to_uppercase_text(m.role.as_str());
            out.append(role.as_str());
            out.append(": ");
            out.append(m.content.as_str());
            proof {
                if i == 0 {
                    assert(t[0] == m);
                    assert(prompt_text(messages@.take(0)) =~= Seq::<char>::empty());
                }
            }
            assert(out@ =~= prompt_text(t));
            i = i + 1;
        }
        assert(messages@.take(i as int) =~= messages@);
        out
    }
}

/// The reply for a finished run of the tool, given whether it exited
/// successfully and what it wrote to its output and error streams.
pub fn interpret_cli_output(success: bool, stdout: &str, stderr: &str) -> (r: Result<
    NormalizedChatResponse,
    ProviderError,
>)
    ensures
        success ==> replies(r, trim_seq(stdout@), "stop"@),
        !success ==> (r matches Err(ProviderError::Cli(m)) && m@ == stderr@),
{
    if !success {
        return Err(ProviderError::Cli(String::from_str(stderr)));
    }
    Ok(NormalizedChatResponse { content: trim_text(stdout), finish_reason: String::from_str("stop") })
}

/// The deltas a CLI reply is streamed in: pieces of 48 characters.
pub fn cli_stream_chunks(content: &str) -> (r: Vec<StreamChunk>)
    ensures
        deltas(r@) == chunks_of(content@, CLI_STREAM_CHARS as nat),
{
    let pieces = split_text_by_char_count(content, CLI_STREAM_CHARS);
    to_stream_chunks(&pieces)
}

/// The texts of a list of stream deltas.
pub open spec fn deltas(v: Seq<StreamChunk>) -> Seq<Seq<char>> {
    v.map_values(|c: StreamChunk| c.content_delta@)
}

/// One stream delta per piece of text, in order.
pub fn to_stream_chunks(pieces: &Vec<String>) -> (r: Vec<StreamChunk>)
    ensures
        deltas(r@) == string_views(pieces@),
{
    let mut out: Vec<StreamChunk> = Vec::new();
    let mut i: usize = 0;
    while i < pieces.len()
        invariant
            i <= pieces@.len(),
            deltas(out@) == string_views(pieces@).take(i as int),
        decreases pieces@.len() - i,
    {
        let ghost before = deltas(out@);
        out.push(StreamChunk { content_delta: pieces[i].clone() });
        assert(deltas(out@) =~= before.push(pieces@[i as int]@));
        assert(string_views(pieces@).take(i + 1) =~= string_views(pieces@).take(i as int).push(
            pieces@[i as int]@,
        ));
        i = i + 1;
    }
    assert(string_views(pieces@).take(i as int) =~= string_views(pieces@));
    out
}

} // verus!
