//! OpenAI-style chat messages: a message's content, plain text or a list of
//! typed parts of which only the text parts are kept, and the body of a
//! completed chat.
use vstd::prelude::*;

verus! {

/// One typed part of a message's content.
#[derive(Debug)]
pub struct ContentPart {
    /// `text`, `image_url`, ...
    pub part_type: String,
    pub text: Option<String>,
}

/// A message's content.
#[derive(Debug)]
pub enum MessageContent {
    Text(String),
    Parts(Vec<ContentPart>),
}

pub const TEXT_PART: &'static str = "text";

/// Whether a part carries text.
pub open spec fn is_text_part(p: ContentPart) -> bool {
    p.part_type@ == TEXT_PART@
}

/// The text of the text parts, in order.
pub open spec fn parts_text(parts: Seq<ContentPart>) -> Seq<char>
    decreases parts.len(),
{
    if parts.len() == 0 {
        seq![]
    } else {
        let last = parts.last();
        parts_text(parts.drop_last()) + if is_text_part(last) {
            match last.text {
                Some(t) => t@,
                None => seq![],
            }
        } else {
            seq![]
        }
    }
}

/// The plain text of a content: the text itself, or its text parts joined.
pub open spec fn plain_text(c: MessageContent) -> Seq<char> {
    match c {
        MessageContent::Text(t) => t@,
        MessageContent::Parts(parts) => parts_text(parts@),
    }
}

/// Whether some part of the content is not text.
pub open spec fn has_dropped_parts(c: MessageContent) -> bool {
    match c {
        MessageContent::Text(_) => false,
        MessageContent::Parts(parts) => exists|i: int|
            0 <= i < parts@.len() && !is_text_part(#[trigger] parts@[i]),
    }
}

fn part_is_text(p: &ContentPart) -> (r: bool)
    ensures
        r == is_text_part(*p),
{
    p.part_type == String::from_str(TEXT_PART)
}

fn any_non_text(parts: &Vec<ContentPart>) -> (r: bool)
    ensures
        r == exists|i: int| 0 <= i < parts@.len() && !is_text_part(#[trigger] parts@[i]),
{
    let mut i: usize = 0;
    while i < parts.len()
        invariant
            i <= parts@.len(),
            forall|k: int| 0 <= k < i ==> is_text_part(#[trigger] parts@[k]),
        decreases parts@.len() - i,
    {
        if !part_is_text(&parts[i]) {
            assert(!is_text_part(parts@[i as int]));
            return true;
        }
        i = i + 1;
    }
    false
}

impl MessageContent {
    /// Whether the content has parts other than text (which are dropped).
    pub fn has_non_text_parts(&self) -> (r: bool)
        ensures
            r == has_dropped_parts(*self),
    {
        match self {
            MessageContent::Text(_) => false,
            MessageContent::Parts(parts) => any_non_text(parts),
        }
    }

    /// The text the content stands for.
    pub fn to_plain_text(&self) -> (r: String)
        ensures
            r@ == plain_text(*self),
    {
        match self {
            MessageContent::Text(t) => t.clone(),
            MessageContent::Parts(parts) => {
                let mut out = String::new();
                let mut i: usize = 0;
                while i < parts.len()
                    invariant
                        i <= parts@.len(),
                        out@ == parts_text(parts@.take(i as int)),
                    decreases parts@.len() - i,
                {
                    let p = &parts[i];
                    let ghost t = parts@.take(i + 1);
                    assert(t.drop_last() =~= parts@.take(i as int));
                    assert(t.last() == *p);
                    if part_is_text(p) {
                        match &p.text {
                            Some(s) => out.append(s.as_str()),
                            None => {},
                        }
                    }
                    assert(out@ =~= parts_text(t));
                    i = i + 1;
                }
                assert(parts@.take(i as int) =~= parts@);
                out
            },
        }
    }
}

/// The assistant's message in a completed chat.
#[derive(Debug)]
pub struct ChatMessage {
    pub role: String,
    pub content: String,
}

/// One answer of a completed chat.
#[derive(Debug)]
pub struct ChatChoice {
    pub index: u32,
    pub message: ChatMessage,
    pub finish_reason: String,
}

/// The token counts of a completed chat.
#[derive(Debug)]
pub struct Usage {
    pub prompt_tokens: u64,
    pub completion_tokens: u64,
    pub total_tokens: u64,
}

/// The body of a completed, non-streamed chat.
#[derive(Debug)]
pub struct ChatCompletionResponse {
    pub id: String,
    pub object: String,
    pub created: i64,
    pub model: String,
    pub choices: Vec<ChatChoice>,
    pub usage: Usage,
}

} // verus!
