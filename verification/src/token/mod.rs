//! Token estimates for prompts and completions.
use vstd::prelude::*;

use crate::text::word_count;
use crate::types::normalized::Message;

pub mod naive;

verus! {

/// The prompt estimate: each message counts its words plus four, summed
/// over the messages in order (its laws are `lemma_prompt_tokens_laws`).
pub open spec fn prompt_tokens(messages: Seq<Message>) -> nat
    decreases messages.len(),
{
    if messages.len() == 0 {
        0
    } else {
        prompt_tokens(messages.drop_last()) + word_count(messages.last().content@) + 4
    }
}

/// Counts the tokens of prompts and completions.
pub trait TokenCounter {
    /// The tokens of a prompt made of `messages`.
    fn count_prompt(&self, model: &str, messages: &[Message]) -> u64
        requires
            prompt_tokens(messages@) <= u64::MAX,
    ;

    /// The tokens of a completion.
    fn count_completion(&self, model: &str, text: &str) -> u64;
}

/// The estimate of a prefix of the messages never exceeds the whole.
pub proof fn lemma_prompt_tokens_prefix(messages: Seq<Message>, k: int)
    requires
        0 <= k <= messages.len(),
    ensures
        prompt_tokens(messages.take(k)) <= prompt_tokens(messages),
    decreases messages.len(),
{
    if k < messages.len() {
        lemma_prompt_tokens_prefix(messages.drop_last(), k);
        assert(messages.drop_last().take(k) =~= messages.take(k));
    } else {
        assert(messages.take(k) =~= messages);
    }
}

/// The prompt estimate adds up over a conversation: the estimate of two
/// runs of messages is the sum of their estimates.
pub proof fn lemma_prompt_tokens_additive(a: Seq<Message>, b: Seq<Message>)
    ensures
        prompt_tokens(a + b) == prompt_tokens(a) + prompt_tokens(b),
    decreases b.len(),
{
    if b.len() == 0 {
        assert(a + b =~= a);
    } else {
        lemma_prompt_tokens_additive(a, b.drop_last());
        assert((a + b).drop_last() =~= a + b.drop_last());
        assert((a + b).last() == b.last());
    }
}

/// The prompt estimate depends on the messages' contents alone: two runs of
/// messages with the same contents, in the same order, get the same
/// estimate whatever their roles.
pub proof fn lemma_prompt_tokens_ignore_roles(a: Seq<Message>, b: Seq<Message>)
    requires
        a.len() == b.len(),
        forall|i: int| 0 <= i < a.len() ==> (#[trigger] a[i]).content@ == b[i].content@,
    ensures
        prompt_tokens(a) == prompt_tokens(b),
    decreases a.len(),
{
    if a.len() > 0 {
        assert forall|i: int| 0 <= i < a.drop_last().len() implies (
        #[trigger] a.drop_last()[i]).content@ == b.drop_last()[i].content@ by {
            assert(a.drop_last()[i] == a[i]);
            assert(b.drop_last()[i] == b[i]);
        }
        lemma_prompt_tokens_ignore_roles(a.drop_last(), b.drop_last());
        assert(a.last() == a[a.len() - 1]);
        assert(b.last() == b[b.len() - 1]);
    }
}

/// The estimate of one message is its word count plus four, and the
/// estimate of no messages is zero.
pub proof fn lemma_prompt_tokens_single(m: Message)
    ensures
        prompt_tokens(seq![m]) == word_count(m.content@) + 4,
        prompt_tokens(Seq::<Message>::empty()) == 0,
{
    assert(prompt_tokens(Seq::<Message>::empty()) == 0);
    assert(seq![m].drop_last() =~= Seq::<Message>::empty());
    assert(seq![m].last() == m);
}

/// The laws of the prompt estimate, as `count_prompt` and
/// `count_completion` state them: the estimate of a run of messages is the
/// sum, over its messages, of the completion estimate of the message's
/// content plus four; so it is zero for no messages and adds up over two
/// runs of messages joined together.
pub proof fn lemma_prompt_tokens_laws(a: Seq<Message>, b: Seq<Message>, m: Message)
    ensures
        prompt_tokens(Seq::<Message>::empty()) == 0,
        prompt_tokens(seq![m]) == word_count(m.content@) + 4,
        prompt_tokens(a.push(m)) == prompt_tokens(a) + word_count(m.content@) + 4,
        prompt_tokens(a + b) == prompt_tokens(a) + prompt_tokens(b),
{
    lemma_prompt_tokens_single(m);
    lemma_prompt_tokens_additive(a, b);
    assert(a.push(m).drop_last() =~= a);
}

} // verus!
