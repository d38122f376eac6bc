//! Deciding whether a candidate word is consistent with the feedback given
//! for earlier guesses, and narrowing a word list accordingly.

use vstd::prelude::*;
use vstd::multiset::*;
use vstd::seq_lib::*;
use crate::letter::{Letter, LetterState};
use crate::word::{characters, is_word_text, unmarked_letters, word_has_five_letters, Word};

verus! {

broadcast use word_has_five_letters;

/// Every letter of the pattern carries the given feedback.
pub open spec fn all_marked(pattern: Seq<Letter>, state: LetterState) -> bool {
    forall|i: int| 0 <= i < pattern.len() ==> (#[trigger] pattern[i]).state == state
}

/// Both sequences hold the same characters, each the same number of times.
pub open spec fn same_characters(candidate: Seq<Letter>, pattern: Seq<Letter>) -> bool {
    characters(candidate).to_multiset() =~= characters(pattern).to_multiset()
}

/// At no position do the two sequences hold the same character.
pub open spec fn no_fixed_point(candidate: Seq<Letter>, pattern: Seq<Letter>) -> bool {
    forall|i: int|
        0 <= i < pattern.len() ==> (#[trigger] candidate[i]).character != pattern[i].character
}

/// No character of the pattern occurs anywhere in the candidate.
pub open spec fn avoids_characters(candidate: Seq<Letter>, pattern: Seq<Letter>) -> bool {
    forall|i: int|
        0 <= i < pattern.len() ==> !characters(candidate).contains(
            (#[trigger] pattern[i]).character,
        )
}

/// The letter is marked as present in the answer: `Correct` or `Misplaced`.
pub open spec fn is_confirmed(letter: Letter) -> bool {
    letter.state == LetterState::Correct || letter.state == LetterState::Misplaced
}

/// The characters that the pattern confirms, one copy for each position
/// marked `Correct` or `Misplaced`.
pub open spec fn confirmed(pattern: Seq<Letter>) -> Multiset<char> {
    characters(pattern.filter(|l: Letter| is_confirmed(l))).to_multiset()
}

/// The candidate obeys what the pattern says at position `i`:
/// - `Unknown` asks for nothing;
/// - `Correct` asks for the same character at `i`;
/// - `Misplaced` asks for the character somewhere in the candidate, but not at `i`;
/// - `Absent` asks for another character at `i`, and for no more copies of
///   the character in the candidate than the pattern confirms.
pub open spec fn agrees_at(candidate: Seq<Letter>, pattern: Seq<Letter>, i: int) -> bool {
    let wanted = pattern[i].character;
    match pattern[i].state {
        LetterState::Unknown => true,
        LetterState::Correct => candidate[i].character == wanted,
        LetterState::Misplaced => {
            &&& characters(candidate).contains(wanted)
            &&& candidate[i].character != wanted
        },
        LetterState::Absent => {
            &&& candidate[i].character != wanted
            &&& characters(candidate).to_multiset().count(wanted) <= confirmed(pattern).count(
                wanted,
            )
        },
    }
}

/// The candidate obeys the pattern at every position.
pub open spec fn agrees_everywhere(candidate: Seq<Letter>, pattern: Seq<Letter>) -> bool {
    forall|i: int| 0 <= i < pattern.len() ==> agrees_at(candidate, pattern, i)
}

/// Whether a candidate is consistent with one round of feedback.
///
/// A pattern marked `Misplaced` throughout asks for an anagram of itself
/// that shares no position with it. A pattern marked `Absent` throughout
/// asks for a candidate that holds none of its characters. Any other
/// pattern is obeyed position by position.
pub open spec fn is_consistent(candidate: Seq<Letter>, pattern: Seq<Letter>) -> bool {
    if all_marked(pattern, LetterState::Misplaced) {
        same_characters(candidate, pattern) && no_fixed_point(candidate, pattern)
    } else if all_marked(pattern, LetterState::Absent) {
        avoids_characters(candidate, pattern)
    } else {
        agrees_everywhere(candidate, pattern)
    }
}

/// The letters of each word of a list, in order.
pub open spec fn letters_of_each(words: Seq<Word>) -> Seq<Seq<Letter>> {
    words.map_values(|w: Word| w@)
}

/// A text stays in a filtered list: it reads as a word, and that word is
/// consistent with every one of the patterns.
pub open spec fn survives(text: Seq<char>, patterns: Seq<Seq<Letter>>) -> bool {
    &&& is_word_text(text)
    &&& forall|j: int|
        0 <= j < patterns.len() ==> is_consistent(unmarked_letters(text), #[trigger] patterns[j])
}

/// The texts of a list that survive the patterns, in the order of the list
/// and as often as they stand in it.
pub open spec fn filtered(all_words: Seq<String>, patterns: Seq<Seq<Letter>>) -> Seq<String> {
    all_words.filter(|text: String| survives(text@, patterns))
}

/// Appending a letter adds one copy of its character.
proof fn lemma_characters_push(letters: Seq<Letter>, letter: Letter)
    ensures
        characters(letters.push(letter)).to_multiset() =~= characters(
            letters,
        ).to_multiset().insert(letter.character),
{
    assert(characters(letters.push(letter)) =~= characters(letters).push(letter.character));
    to_multiset_build(characters(letters), letter.character);
}

/// Appending a letter confirms one more copy of its character if the letter
/// is marked `Correct` or `Misplaced`, and nothing otherwise.
proof fn lemma_confirmed_push(pattern: Seq<Letter>, letter: Letter)
    ensures
        confirmed(pattern.push(letter)) =~= if is_confirmed(letter) {
            confirmed(pattern).insert(letter.character)
        } else {
            confirmed(pattern)
        },
{
    reveal(Seq::filter);
    let kept = |l: Letter| is_confirmed(l);
    assert(pattern.push(letter).drop_last() =~= pattern);
    if is_confirmed(letter) {
        assert(pattern.push(letter).filter(kept) =~= pattern.filter(kept).push(letter));
        lemma_characters_push(pattern.filter(kept), letter);
    }
}

/// Two multisets of one size are equal as soon as every value of the second
/// occurs equally often in the first.
proof fn lemma_equal_by_counts(a: Multiset<char>, b: Multiset<char>)
    requires
        a.len() == b.len(),
        forall|c: char| b.count(c) > 0 ==> a.count(c) == b.count(c),
    ensures
        a =~= b,
{
    broadcast use group_multiset_axioms;

    assert(b.subset_of(a));
    axiom_len_sub(a, b);
    assert forall|c: char| a.count(c) == b.count(c) by {
        axiom_count_le_len(a.sub(b), c);
        axiom_multiset_sub(a, b, c);
    }
}

fn is_all_marked(pattern: &Word, state: LetterState) -> (all: bool)
    ensures
        all == all_marked(pattern@, state),
{
    let mut i: usize = 0;
    while i < 5
        invariant
            i <= 5,
            pattern@.len() == 5,
            forall|k: int| 0 <= k < i ==> (#[trigger] pattern@[k]).state == state,
        decreases 5 - i,
    {
        if pattern.letter_at(i).state != state {
            return false;
        }
        i += 1;
    }
    true
}

fn holds(word: &Word, c: char) -> (found: bool)
    ensures
        found == characters(word@).contains(c),
{
    let mut i: usize = 0;
    while i < 5
        invariant
            i <= 5,
            word@.len() == 5,
            forall|k: int| 0 <= k < i ==> characters(word@)[k] != c,
        decreases 5 - i,
    {
        if word.letter_at(i).character == c {
            assert(characters(word@)[i as int] == c);
            return true;
        }
        i += 1;
    }
    false
}

fn occurrences(word: &Word, c: char) -> (n: usize)
    ensures
        n == characters(word@).to_multiset().count(c),
{
    broadcast use {group_to_multiset_ensures, group_multiset_axioms};

    let mut n: usize = 0;
    let mut i: usize = 0;
    while i < 5
        invariant
            i <= 5,
            n <= i,
            word@.len() == 5,
            n == characters(word@.take(i as int)).to_multiset().count(c),
        decreases 5 - i,
    {
        proof {
            assert(word@.take(i + 1) =~= word@.take(i as int).push(word@[i as int]));
            lemma_characters_push(word@.take(i as int), word@[i as int]);
        }
        if word.letter_at(i).character == c {
            n += 1;
        }
        i += 1;
    }
    proof {
        assert(word@.take(5) =~= word@);
    }
    n
}

fn confirmed_occurrences(pattern: &Word, c: char) -> (n: usize)
    ensures
        n == confirmed(pattern@).count(c),
{
    broadcast use {group_to_multiset_ensures, group_multiset_axioms};

    let mut n: usize = 0;
    let mut i: usize = 0;
    while i < 5
        invariant
            i <= 5,
            n <= i,
            pattern@.len() == 5,
            n == confirmed(pattern@.take(i as int)).count(c),
        decreases 5 - i,
    {
        proof {
            assert(pattern@.take(i + 1) =~= pattern@.take(i as int).push(pattern@[i as int]));
            lemma_confirmed_push(pattern@.take(i as int), pattern@[i as int]);
        }
        let letter = pattern.letter_at(i);
        if letter.character == c && (letter.state == LetterState::Correct || letter.state
            == LetterState::Misplaced) {
            n += 1;
        }
        i += 1;
    }
    proof {
        assert(pattern@.take(5) =~= pattern@);
    }
    n
}

fn has_same_characters(candidate: &Word, pattern: &Word) -> (same: bool)
    ensures
        same == same_characters(candidate@, pattern@),
{
    broadcast use {group_to_multiset_ensures, group_multiset_axioms};

    let mut i: usize = 0;
    while i < 5
        invariant
            i <= 5,
            pattern@.len() == 5,
            forall|k: int|
                0 <= k < i ==> characters(candidate@).to_multiset().count(
                    #[trigger] characters(pattern@)[k],
                ) == characters(pattern@).to_multiset().count(characters(pattern@)[k]),
        decreases 5 - i,
    {
        let c = pattern.letter_at(i).character;
        if occurrences(candidate, c) != occurrences(pattern, c) {
            assert(characters(pattern@)[i as int] == c);
            return false;
        }
        i += 1;
    }
    proof {
        let a = characters(candidate@).to_multiset();
        let b = characters(pattern@).to_multiset();
        assert forall|c: char| b.count(c) > 0 implies a.count(c) == b.count(c) by {
            assert(characters(pattern@).contains(c));
        }
        lemma_equal_by_counts(a, b);
    }
    true
}

fn has_no_fixed_point(candidate: &Word, pattern: &Word) -> (none: bool)
    ensures
        none == no_fixed_point(candidate@, pattern@),
{
    let mut i: usize = 0;
    while i < 5
        invariant
            i <= 5,
            pattern@.len() == 5,
            candidate@.len() == 5,
            forall|k: int|
                0 <= k < i ==> (#[trigger] candidate@[k]).character != pattern@[k].character,
        decreases 5 - i,
    {
        if candidate.letter_at(i).character == pattern.letter_at(i).character {
            return false;
        }
        i += 1;
    }
    true
}

fn avoids(candidate: &Word, pattern: &Word) -> (none: bool)
    ensures
        none == avoids_characters(candidate@, pattern@),
{
    let mut i: usize = 0;
    while i < 5
        invariant
            i <= 5,
            pattern@.len() == 5,
            forall|k: int|
                0 <= k < i ==> !characters(candidate@).contains((#[trigger] pattern@[k]).character),
        decreases 5 - i,
    {
        if holds(candidate, pattern.letter_at(i).character) {
            return false;
        }
        i += 1;
    }
    true
}

fn agrees(candidate: &Word, pattern: &Word) -> (all: bool)
    ensures
        all == agrees_everywhere(candidate@, pattern@),
{
    let mut i: usize = 0;
    while i < 5
        invariant
            i <= 5,
            pattern@.len() == 5,
            candidate@.len() == 5,
            forall|k: int| 0 <= k < i ==> agrees_at(candidate@, pattern@, k),
        decreases 5 - i,
    {
        let wanted = pattern.letter_at(i);
        let found = candidate.letter_at(i).character;
        let obeyed = match wanted.state {
            LetterState::Unknown => true,
            LetterState::Correct => found == wanted.character,
            LetterState::Misplaced => holds(candidate, wanted.character) && found
                != wanted.character,
            LetterState::Absent => found != wanted.character && occurrences(
                candidate,
                wanted.character,
            ) <= confirmed_occurrences(pattern, wanted.character),
        };
        if !obeyed {
            assert(!agrees_at(candidate@, pattern@, i as int));
            return false;
        }
        i += 1;
    }
    true
}

impl Word {
    /// Decides whether this word, taken as a candidate, is consistent with
    /// the feedback that `pattern` records. The answer depends on the
    /// letters of the two words and on nothing else.
    pub fn matches_pattern(&self, pattern: &Word) -> (consistent: bool)
        ensures
            consistent == is_consistent(self@, pattern@),
    {
        if is_all_marked(pattern, LetterState::Misplaced) {
            return has_same_characters(self, pattern) && has_no_fixed_point(self, pattern);
        }
        if is_all_marked(pattern, LetterState::Absent) {
            return avoids(self, pattern);
        }
        agrees(self, pattern)
    }
}

fn passes(text: &str, patterns: &[Word]) -> (stays: bool)
    ensures
        stays == survives(text@, letters_of_each(patterns@)),
{
    match Word::new(text) {
        Ok(candidate) => {
            let mut j: usize = 0;
            while j < patterns.len()
                invariant
                    j <= patterns@.len(),
                    is_word_text(text@),
                    candidate@ == unmarked_letters(text@),
                    forall|k: int|
                        0 <= k < j ==> is_consistent(
                            unmarked_letters(text@),
                            #[trigger] letters_of_each(patterns@)[k],
                        ),
                decreases patterns@.len() - j,
            {
                if !candidate.matches_pattern(&patterns[j]) {
                    assert(!is_consistent(
                        unmarked_letters(text@),
                        letters_of_each(patterns@)[j as int],
                    ));
                    return false;
                }
                j += 1;
            }
            true
        },
        Err(_) => false,
    }
}

/// Narrows a word list to the words consistent with every pattern. An entry
/// that does not read as a word is dropped; the entries that stay keep their
/// order and their number.
pub fn filter_words(all_words: &[String], given_words: &[Word]) -> (kept: Vec<String>)
    ensures
        kept@ == filtered(all_words@, letters_of_each(given_words@)),
{
    let mut kept: Vec<String> = Vec::new();
    let mut i: usize = 0;
    proof {
        reveal(Seq::filter);
    }
    while i < all_words.len()
        invariant
            i <= all_words@.len(),
            kept@ == filtered(all_words@.take(i as int), letters_of_each(given_words@)),
        decreases all_words@.len() - i,
    {
        let text = &all_words[i];
        proof {
            reveal(Seq::filter);
            assert(all_words@.take(i + 1).drop_last() =~= all_words@.take(i as int));
        }
        if passes(text.as_str(), given_words) {
            kept.push(text.clone());
        }
        i += 1;
    }
    proof {
        assert(all_words@.take(i as int) =~= all_words@);
    }
    kept
}

} // verus!
