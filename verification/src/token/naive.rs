//! A token estimate that counts white-space separated words.
use vstd::prelude::*;

use crate::text::{count_words, is_white_space, word_count};
use crate::token::{lemma_prompt_tokens_prefix, prompt_tokens, TokenCounter};
use crate::types::normalized::Message;

verus! {

/// Estimates tokens by counting words.
pub struct NaiveTokenCounter;

impl TokenCounter for NaiveTokenCounter {
    fn count_prompt(&self, model: &str, messages: &[Message]) -> (r: u64)
        ensures
            r == prompt_tokens(messages@),
    {
        let mut total: u64 = 0;
        let mut i: usize = 0;
        while i < messages.len()
            invariant
                i <= messages@.len(),
                prompt_tokens(messages@) <= u64::MAX,
                total == prompt_tokens(messages@.take(i as int)),
            decreases messages@.len() - i,
        {
            proof {
                lemma_prompt_tokens_prefix(messages@, i as int + 1);
                assert(messages@.take(i + 1).drop_last() =~= messages@.take(i as int));
            }
            let words = count_words(messages[i].content.as_str());
            total = total + words as u64 + 4;
            i = i + 1;
        }
        assert(messages@.take(i as int) =~= messages@);
        total
    }

    fn count_completion(&self, model: &str, text: &str) -> (r: u64)
        ensures
            r == word_count(text@),
    {
        count_words(text) as u64
    }
}

/// Words are counted independently on each side of white space: joining
/// two texts with a white-space character adds their word counts.
pub proof fn lemma_word_count_split(a: Seq<char>, c: char, b: Seq<char>)
    requires
        is_white_space(c),
    ensures
        word_count(a + seq![c] + b) == word_count(a) + word_count(b),
    decreases b.len(),
{
    let ac = a + seq![c];
    if b.len() == 0 {
        assert(ac + b =~= ac);
        assert(ac.drop_last() =~= a);
    } else {
        lemma_word_count_split(a, c, b.drop_last());
        let s = ac + b;
        assert(s.drop_last() =~= ac + b.drop_last());
        assert(s.last() == b.last());
        if b.len() == 1 {
            assert(s[s.len() - 2] == c);
            assert(b.drop_last() =~= Seq::<char>::empty());
        } else {
            assert(s[s.len() - 2] == b[b.len() - 2]);
        }
    }
}

/// A completion estimate is at most the number of characters.
pub proof fn lemma_word_count_bounded(s: Seq<char>)
    ensures
        word_count(s) <= s.len(),
    decreases s.len(),
{
    if s.len() > 0 {
        lemma_word_count_bounded(s.drop_last());
    }
}

} // verus!
