//! The one operation offered to callers outside: from the patterns as they
//! arrive, to the words of a list that are consistent with all of them.

use vstd::prelude::*;
use crate::data::{convert_word_data, pattern_letters, refusal, WordData};
use crate::game_logic::{filter_words, filtered, letters_of_each};
use crate::letter::Letter;
use crate::word::Word;

verus! {

/// The letters that each of the patterns describes, in order.
pub open spec fn letters_of_patterns(patterns: Seq<WordData>) -> Seq<Seq<Letter>> {
    patterns.map_values(|records: WordData| pattern_letters(records@))
}

/// `message` is what the first pattern that is refused is refused with.
pub open spec fn is_first_refusal(patterns: Seq<WordData>, message: Seq<char>) -> bool {
    exists|k: int|
        {
            &&& 0 <= k < patterns.len()
            &&& #[trigger] refusal(patterns[k]@) == Some(message)
            &&& forall|j: int| 0 <= j < k ==> #[trigger] refusal(patterns[j]@) is None
        }
}

/// Every pattern is accepted.
pub open spec fn all_accepted(patterns: Seq<WordData>) -> bool {
    forall|k: int| 0 <= k < patterns.len() ==> #[trigger] refusal(patterns[k]@) is None
}

/// Turns each pattern into a word, in order. The first pattern that is
/// refused ends the conversion with its message.
pub fn convert_patterns(patterns: &Vec<WordData>) -> (converted: Result<Vec<Word>, String>)
    ensures
        match converted {
            Ok(words) => {
                &&& all_accepted(patterns@)
                &&& letters_of_each(words@) == letters_of_patterns(patterns@)
                &&& forall|k: int| 0 <= k < words@.len() ==> (#[trigger] words@[k]).wf()
            },
            Err(message) => is_first_refusal(patterns@, message@),
        },
{
    let mut words: Vec<Word> = Vec::new();
    let mut k: usize = 0;
    while k < patterns.len()
        invariant
            k <= patterns@.len(),
            words@.len() == k,
            forall|j: int| 0 <= j < k ==> #[trigger] refusal(patterns@[j]@) is None,
            forall|j: int| 0 <= j < k ==> (#[trigger] words@[j])@ == pattern_letters(patterns@[j]@),
            forall|j: int| 0 <= j < k ==> (#[trigger] words@[j]).wf(),
        decreases patterns@.len() - k,
    {
        match convert_word_data(&patterns[k]) {
            Ok(word) => {
                words.push(word);
            },
            Err(message) => {
                assert(refusal(patterns@[k as int]@) == Some(message@));
                return Err(message);
            },
        }
        k += 1;
    }
    Ok(words)
}

/// Narrows a word list by the patterns as they arrive from outside. If a
/// pattern is refused, the message of the first such pattern is returned and
/// nothing is filtered; otherwise the words consistent with every pattern
/// are, in the order of the list.
pub fn filter_word_list(all_words: &[String], patterns: Vec<WordData>) -> (outcome: Result<
    Vec<String>,
    String,
>)
    ensures
        match outcome {
            Ok(kept) => {
                &&& all_accepted(patterns@)
                &&& kept@ == filtered(all_words@, letters_of_patterns(patterns@))
            },
            Err(message) => is_first_refusal(patterns@, message@),
        },
{
    match convert_patterns(&patterns) {
        Ok(words) => Ok(filter_words(all_words, words.as_slice())),
        Err(message) => Err(message),
    }
}

} // verus!
