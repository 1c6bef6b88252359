//! Estimating how many tokens a request takes.
use vstd::prelude::*;

use crate::text::{chars_of, split_words, texts, words};

verus! {

pub open spec fn larger(a: nat, b: nat) -> nat {
    if a >= b {
        a
    } else {
        b
    }
}

/// The tokens of a text: one for four characters begun, at least one for each word,
/// and at least one.
pub open spec fn text_tokens(s: Seq<char>) -> nat {
    larger(larger((s.len() + 3) / 4, words(s).len()), 1)
}

/// The tokens of messages: those of their texts, and four for each message.
pub open spec fn messages_tokens(messages: Seq<Seq<char>>) -> nat
    decreases messages.len(),
{
    if messages.len() == 0 {
        0
    } else {
        messages_tokens(messages.drop_last()) + text_tokens(messages.last()) + 4
    }
}

/// The tokens of a request: those of its messages and eight for each tool offered.
pub open spec fn request_tokens(messages: Seq<Seq<char>>, tools: nat) -> nat {
    larger(messages_tokens(messages) + tools * 8, 1)
}

pub fn estimate_text_tokens(text: &str) -> (n: u64)
    ensures
        n == text_tokens(text@),
{
    let v = chars_of(text);
    let chars: u64 = v.len() as u64;
    let word_list = split_words(&v);
    assert(texts(word_list@).len() == words(text@).len());
    let word_count: u64 = word_list.len() as u64;
    let quarters: u64 = chars / 4 + if chars % 4 > 0 {
        1
    } else {
        0
    };
    let most = if quarters >= word_count {
        quarters
    } else {
        word_count
    };
    if most >= 1 {
        most
    } else {
        1
    }
}

proof fn lemma_messages_tokens_prefix(messages: Seq<Seq<char>>, k: int)
    requires
        0 <= k <= messages.len(),
    ensures
        messages_tokens(messages.take(k)) <= messages_tokens(messages),
    decreases messages.len() - k,
{
    if k < messages.len() {
        lemma_messages_tokens_prefix(messages, k + 1);
        assert(messages.take(k + 1).drop_last() =~= messages.take(k));
    } else {
        assert(messages.take(k) =~= messages);
    }
}

/// Estimates the tokens of a request with messages of these texts and this many
/// tools.
pub fn estimate_request_tokens(messages: &Vec<String>, tools: usize) -> (n: u64)
    requires
        request_tokens(texts(messages@), tools as nat) <= u64::MAX,
    ensures
        n == request_tokens(texts(messages@), tools as nat),
{
    let ghost all = texts(messages@);
    let mut sum: u64 = 0;
    let mut i: usize = 0;
    assert(all.take(0) =~= Seq::<Seq<char>>::empty());
    while i < messages.len()
        invariant
            i <= messages@.len(),
            all == texts(messages@),
            messages_tokens(all) <= u64::MAX,
            sum == messages_tokens(all.take(i as int)),
        decreases messages@.len() - i,
    {
        proof {
            lemma_messages_tokens_prefix(all, i + 1);
            assert(all.take(i + 1).drop_last() =~= all.take(i as int));
        }
        sum = sum + estimate_text_tokens(messages[i].as_str()) + 4;
        i += 1;
    }
    assert(all.take(i as int) =~= all);
    let total: u64 = sum + tools as u64 * 8;
    if total >= 1 {
        total
    } else {
        1
    }
}

} // verus!
