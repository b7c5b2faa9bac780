//! Counting the words of a text.

use vstd::prelude::*;
use crate::text::same_text;
use std::str::SplitWhitespace;

verus! {

/// The iterator that `str::split_whitespace` returns.
#[verifier::external_type_specification]
#[verifier::external_body]
pub struct ExSplitWhitespace<'a>(SplitWhitespace<'a>);

/// The words of a text, as `str::split_whitespace` cuts them.
pub uninterp spec fn words_of(text: Seq<char>) -> Seq<Seq<char>>;

/// The words that an iterator has yet to hand out, in order.
pub uninterp spec fn words_left(words: SplitWhitespace<'_>) -> Seq<Seq<char>>;

/// `str::split_whitespace`: an iterator that has all the words of the text
/// to hand out.
#[verifier::external_body]
fn split_whitespace<'a>(text: &'a str) -> (r: SplitWhitespace<'a>)
    ensures
        words_left(r) == words_of(text@),
{
    text.split_whitespace()
}

/// `SplitWhitespace::next`: hands out the first of the remaining words, or
/// `None` once none remains.
#[verifier::external_body]
fn next_word<'a>(words: &mut SplitWhitespace<'a>) -> (r: Option<&'a str>)
    ensures
        match r {
            Some(word) => {
                &&& words_left(*old(words)).len() > 0
                &&& word@ == words_left(*old(words))[0]
                &&& words_left(*final(words)) == words_left(*old(words)).drop_first()
            },
            None => {
                &&& words_left(*old(words)).len() == 0
                &&& words_left(*final(words)) == words_left(*old(words))
            },
        },
{
    words.next()
}

/// A word with the number of times it was seen.
pub type Count = (Seq<char>, nat);

/// The texts that a vector of string slices holds.
pub open spec fn word_texts(words: Seq<&str>) -> Seq<Seq<char>> {
    words.map_values(|w: &str| w@)
}

/// A tally as mathematics sees it.
pub open spec fn tally_view(tally: Seq<(&str, usize)>) -> Seq<Count> {
    tally.map_values(|c: (&str, usize)| (c.0@, c.1 as nat))
}

/// Where `word` stands in the tally, if it does.
pub open spec fn position(tally: Seq<Count>, word: Seq<char>) -> Option<int>
    decreases tally.len(),
{
    if tally.len() == 0 {
        None
    } else if tally.last().0 == word && position(tally.drop_last(), word) is None {
        Some(tally.len() - 1)
    } else {
        position(tally.drop_last(), word)
    }
}

/// The tally after `word` was seen once more: its count goes up by one, or
/// it joins the end with a count of one.
pub open spec fn seen(tally: Seq<Count>, word: Seq<char>) -> Seq<Count> {
    match position(tally, word) {
        Some(k) => tally.update(k, (word, tally[k].1 + 1)),
        None => tally.push((word, 1nat)),
    }
}

/// The tally of `words`: each word once, in the order of its first
/// occurrence, with the number of its occurrences.
pub open spec fn tally_of(words: Seq<Seq<char>>) -> Seq<Count>
    decreases words.len(),
{
    if words.len() == 0 {
        Seq::empty()
    } else {
        seen(tally_of(words.drop_last()), words.last())
    }
}

/// `position` finds the first place at which the word stands.
pub proof fn lemma_position(tally: Seq<Count>, word: Seq<char>)
    ensures
        match position(tally, word) {
            Some(k) => {
                &&& 0 <= k < tally.len()
                &&& tally[k].0 == word
                &&& forall|j: int| 0 <= j < k ==> (#[trigger] tally[j]).0 != word
            },
            None => forall|j: int| 0 <= j < tally.len() ==> (#[trigger] tally[j]).0 != word,
        },
    decreases tally.len(),
{
    if tally.len() > 0 {
        lemma_position(tally.drop_last(), word);
        assert forall|j: int| 0 <= j < tally.len() - 1 implies tally[j] == tally.drop_last()[j] by {}
    }
}

/// The words of a text, in order.
pub fn words<'a>(text: &'a str) -> (r: Vec<&'a str>)
    ensures
        word_texts(r@) == words_of(text@),
{
    let mut rest = split_whitespace(text);
    let mut found: Vec<&'a str> = Vec::new();
    assert(word_texts(found@) + words_left(rest) =~= words_of(text@));
    loop
        invariant
            word_texts(found@) + words_left(rest) == words_of(text@),
        ensures
            word_texts(found@) == words_of(text@),
        decreases words_left(rest).len(),
    {
        let ghost before = found@;
        let ghost left = words_left(rest);
        match next_word(&mut rest) {
            Some(word) => {
                found.push(word);
                assert(word_texts(found@) =~= word_texts(before).push(word@));
                assert(word_texts(found@) + words_left(rest) =~= word_texts(before) + left);
            },
            None => {
                assert(word_texts(found@) + words_left(rest) =~= word_texts(found@));
                break ;
            },
        }
    }
    found
}

/// Counts how often each of `words` occurs: each word once, in the order of
/// its first occurrence, with the number of its occurrences.
pub fn count_words<'a>(words: &Vec<&'a str>) -> (r: Vec<(&'a str, usize)>)
    ensures
        tally_view(r@) == tally_of(word_texts(words@)),
{
    let mut tally: Vec<(&'a str, usize)> = Vec::new();
    let mut i: usize = 0;
    assert(tally_view(tally@) =~= tally_of(word_texts(words@).take(0)));
    while i < words.len()
        invariant
            i <= words@.len(),
            tally_view(tally@) == tally_of(word_texts(words@).take(i as int)),
            forall|k: int| 0 <= k < tally@.len() ==> (#[trigger] tally@[k]).1 <= i,
        decreases words@.len() - i,
    {
        let word: &'a str = words[i];
        let ghost before = tally_view(tally@);
        proof {
            assert(word_texts(words@).take(i + 1).drop_last() =~= word_texts(words@).take(
                i as int,
            ));
            assert(word_texts(words@).take(i + 1).last() == word@);
            lemma_position(before, word@);
        }
        let mut j: usize = 0;
        let mut found: bool = false;
        while j < tally.len() && !found
            invariant
                j <= tally@.len(),
                before == tally_view(tally@),
                forall|k: int| 0 <= k < tally@.len() ==> (#[trigger] tally@[k]).1 <= i,
                i < words@.len(),
                !found ==> forall|k: int| 0 <= k < j ==> (#[trigger] before[k]).0 != word@,
                found ==> j < tally@.len() && before[j as int].0 == word@ && forall|k: int|
                    0 <= k < j ==> (#[trigger] before[k]).0 != word@,
            decreases tally@.len() - j + (if found { 0int } else { 1int }),
        {
            if same_text(tally[j].0, word) {
                found = true;
            } else {
                j = j + 1;
            }
        }
        if found {
            let entry: (&'a str, usize) = tally[j];
            assert(position(before, word@) == Some(j as int));
            tally.set(j, (entry.0, entry.1 + 1));
            assert(tally_view(tally@) =~= seen(before, word@));
        } else {
            assert(position(before, word@) is None);
            tally.push((word, 1));
            assert(tally_view(tally@) =~= seen(before, word@));
        }
        i = i + 1;
    }
    assert(word_texts(words@).take(words@.len() as int) =~= word_texts(words@));
    tally
}

/// Counts how often each word of `text` occurs.
pub fn word_count<'a>(text: &'a str) -> (r: Vec<(&'a str, usize)>)
    ensures
        tally_view(r@) == tally_of(words_of(text@)),
{
    let found = words(text);
    count_words(&found)
}

} // verus!
