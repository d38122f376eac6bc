//! What holds of matching and filtering on every input.

use vstd::prelude::*;
use vstd::multiset::*;
use vstd::seq_lib::*;
use crate::game_logic::{
    agrees_at, agrees_everywhere, all_marked, avoids_characters, confirmed, filtered,
    is_confirmed, is_consistent, letters_of_each, survives,
};
use crate::letter::{Letter, LetterState};
use crate::word::{characters, is_word_text, unmarked_letters, word_has_five_letters, Word};

verus! {

broadcast use word_has_five_letters;

/// Consistency is decided by the letters alone: two candidates with the same
/// letters get the same answer from two patterns with the same letters.
pub proof fn consistency_is_decided_by_letters(
    candidate: Word,
    same_candidate: Word,
    pattern: Word,
    same_pattern: Word,
)
    requires
        candidate@ == same_candidate@,
        pattern@ == same_pattern@,
    ensures
        is_consistent(candidate@, pattern@) == is_consistent(same_candidate@, same_pattern@),
{
}

/// A pattern that marks every letter `Correct` accepts the word it spells.
pub proof fn correct_throughout_accepts_own_word(candidate: Word, pattern: Word)
    requires
        forall|i: int|
            0 <= i < 5 ==> {
                &&& (#[trigger] pattern@[i]).state == LetterState::Correct
                &&& pattern@[i].character == candidate@[i].character
            },
    ensures
        is_consistent(candidate@, pattern@),
{
    assert(pattern@[0].state == LetterState::Correct);
    assert forall|i: int| 0 <= i < 5 implies agrees_at(candidate@, pattern@, i) by {
        assert(pattern@[i].state == LetterState::Correct);
    }
}

/// A pattern that marks every letter `Misplaced` accepts exactly its
/// anagrams that share no position with it: the candidates that hold the
/// same characters equally often, and at each position another character
/// than the pattern.
pub proof fn misplaced_throughout_accepts_derangements(candidate: Word, pattern: Word)
    requires
        all_marked(pattern@, LetterState::Misplaced),
    ensures
        is_consistent(candidate@, pattern@) <==> {
            &&& characters(candidate@).to_multiset() =~= characters(pattern@).to_multiset()
            &&& forall|i: int|
                0 <= i < 5 ==> (#[trigger] candidate@[i]).character != pattern@[i].character
        },
{
}

/// A pattern that marks every letter `Absent` accepts exactly the candidates
/// in which none of its characters occurs at any position.
pub proof fn absent_throughout_accepts_strangers(candidate: Word, pattern: Word)
    requires
        all_marked(pattern@, LetterState::Absent),
    ensures
        is_consistent(candidate@, pattern@) <==> forall|i: int, j: int|
            0 <= i < 5 && 0 <= j < 5 ==> (#[trigger] candidate@[j]).character != (
            #[trigger] pattern@[i]).character,
{
    assert(pattern@[0].state == LetterState::Absent);
    let found = characters(candidate@);
    if is_consistent(candidate@, pattern@) {
        assert forall|i: int, j: int| 0 <= i < 5 && 0 <= j < 5 implies (
        #[trigger] candidate@[j]).character != (#[trigger] pattern@[i]).character by {
            assert(!found.contains(pattern@[i].character));
            assert(found[j] == candidate@[j].character);
        }
    }
    if forall|i: int, j: int|
        0 <= i < 5 && 0 <= j < 5 ==> (#[trigger] candidate@[j]).character != (
        #[trigger] pattern@[i]).character {
        assert forall|i: int| 0 <= i < 5 implies !found.contains(
            (#[trigger] pattern@[i]).character,
        ) by {
            if found.contains(pattern@[i].character) {
                let j = choose|j: int| 0 <= j < found.len() && found[j] == pattern@[i].character;
                assert(candidate@[j].character == pattern@[i].character);
            }
        }
    }
}

/// For a pattern that marks every letter `Absent`, holding none of its
/// characters is just what the rules for the single positions ask: the
/// pattern confirms nothing, so every mark caps its character at no copy.
pub proof fn absent_throughout_is_what_positions_ask(candidate: Word, pattern: Word)
    requires
        all_marked(pattern@, LetterState::Absent),
    ensures
        avoids_characters(candidate@, pattern@) <==> agrees_everywhere(candidate@, pattern@),
{
    broadcast use {group_to_multiset_ensures, group_multiset_axioms};

    let found = characters(candidate@);
    let kept = |l: Letter| is_confirmed(l);
    assert forall|i: int| 0 <= i < pattern@.len() implies !kept(#[trigger] pattern@[i]) by {
        assert(pattern@[i].state == LetterState::Absent);
    }
    pattern@.lemma_all_neg_filter_empty(kept);
    assert(characters(pattern@.filter(kept)) =~= Seq::<char>::empty());
    assert forall|c: char| confirmed(pattern@).count(c) == 0 by {
        axiom_count_le_len(confirmed(pattern@), c);
    }
    assert forall|i: int| 0 <= i < 5 implies (agrees_at(candidate@, pattern@, i) <==> !found.contains(
        (#[trigger] pattern@[i]).character,
    )) by {
        assert(pattern@[i].state == LetterState::Absent);
        if !found.contains(pattern@[i].character) {
            assert(found[i] == candidate@[i].character);
        }
    }
}

/// A pattern that marks every letter `Misplaced` asks for more than the
/// rules for the single positions do: whatever it accepts, they accept.
pub proof fn misplaced_throughout_asks_more_than_positions(candidate: Word, pattern: Word)
    requires
        all_marked(pattern@, LetterState::Misplaced),
        is_consistent(candidate@, pattern@),
    ensures
        agrees_everywhere(candidate@, pattern@),
{
    broadcast use {group_to_multiset_ensures, group_multiset_axioms};

    assert forall|i: int| 0 <= i < 5 implies agrees_at(candidate@, pattern@, i) by {
        assert(pattern@[i].state == LetterState::Misplaced);
        assert(characters(pattern@)[i] == pattern@[i].character);
        assert(characters(pattern@).contains(pattern@[i].character));
        assert(characters(candidate@).to_multiset().count(pattern@[i].character) > 0);
        assert(candidate@[i].character != pattern@[i].character);
    }
}

/// Nothing is left of an empty list, whatever the patterns.
pub proof fn filtering_nothing_leaves_nothing(given_words: Seq<Word>)
    ensures
        filtered(Seq::<String>::empty(), letters_of_each(given_words)) == Seq::<String>::empty(),
{
    reveal(Seq::filter);
}

/// Without patterns a list of words stays as it is. The entries must read as
/// words: one that does not is dropped even then.
pub proof fn filtering_by_nothing_keeps_words(all_words: Seq<String>)
    requires
        forall|i: int| 0 <= i < all_words.len() ==> is_word_text((#[trigger] all_words[i])@),
    ensures
        filtered(all_words, letters_of_each(Seq::<Word>::empty())) == all_words,
    decreases all_words.len(),
{
    reveal(Seq::filter);
    assert(letters_of_each(Seq::<Word>::empty()) =~= Seq::empty());
    if all_words.len() > 0 {
        filtering_by_nothing_keeps_words(all_words.drop_last());
        assert(is_word_text(all_words.last()@));
        assert(all_words.drop_last().push(all_words.last()) =~= all_words);
    }
}

/// `picks` names, in rising order, the positions of `source` from which the
/// entries of `part` are taken.
pub open spec fn is_selection(part: Seq<String>, source: Seq<String>, picks: Seq<int>) -> bool {
    &&& picks.len() == part.len()
    &&& forall|k: int|
        0 <= k < picks.len() ==> 0 <= #[trigger] picks[k] < source.len() && part[k]
            == source[picks[k]]
    &&& forall|k: int, l: int| 0 <= k < l < picks.len() ==> picks[k] < picks[l]
}

proof fn selection_of_filtered(all_words: Seq<String>, given_words: Seq<Word>) -> (picks: Seq<
    int,
>)
    ensures
        is_selection(filtered(all_words, letters_of_each(given_words)), all_words, picks),
    decreases all_words.len(),
{
    reveal(Seq::filter);
    if all_words.len() == 0 {
        Seq::empty()
    } else {
        let before = selection_of_filtered(all_words.drop_last(), given_words);
        if survives(all_words.last()@, letters_of_each(given_words)) {
            before.push(all_words.len() - 1)
        } else {
            before
        }
    }
}

/// Filtering invents nothing and reorders nothing: what is left of a list
/// are entries of the list, taken from positions that rise from one entry
/// to the next.
pub proof fn filtering_selects_in_order(all_words: Seq<String>, given_words: Seq<Word>)
    ensures
        exists|picks: Seq<int>|
            is_selection(filtered(all_words, letters_of_each(given_words)), all_words, picks),
{
    let picks = selection_of_filtered(all_words, given_words);
}

/// The patterns are conjoined: a text survives two lists of patterns put
/// together exactly if it survives each of the two.
pub proof fn patterns_are_conjoined(text: Seq<char>, first: Seq<Word>, second: Seq<Word>)
    ensures
        survives(text, letters_of_each(first + second)) <==> {
            &&& survives(text, letters_of_each(first))
            &&& survives(text, letters_of_each(second))
        },
{
    let together = letters_of_each(first + second);
    let left = letters_of_each(first);
    let right = letters_of_each(second);
    assert(together =~= left + right);
    if survives(text, left) && survives(text, right) {
        assert forall|j: int| 0 <= j < together.len() implies is_consistent(
            unmarked_letters(text),
            #[trigger] together[j],
        ) by {
            if j < left.len() {
                assert(together[j] == left[j]);
            } else {
                assert(together[j] == right[j - left.len()]);
            }
        }
    }
    if survives(text, together) {
        assert forall|j: int| 0 <= j < left.len() implies is_consistent(
            unmarked_letters(text),
            #[trigger] left[j],
        ) by {
            assert(together[j] == left[j]);
        }
        assert forall|j: int| 0 <= j < right.len() implies is_consistent(
            unmarked_letters(text),
            #[trigger] right[j],
        ) by {
            assert(together[j + left.len()] == right[j]);
        }
    }
}

/// The order in which the patterns are given does not change what is left
/// of a list.
pub proof fn filtering_ignores_pattern_order(
    all_words: Seq<String>,
    first: Seq<Word>,
    second: Seq<Word>,
)
    ensures
        filtered(all_words, letters_of_each(first + second)) == filtered(
            all_words,
            letters_of_each(second + first),
        ),
    decreases all_words.len(),
{
    reveal(Seq::filter);
    if all_words.len() > 0 {
        filtering_ignores_pattern_order(all_words.drop_last(), first, second);
        patterns_are_conjoined(all_words.last()@, first, second);
        patterns_are_conjoined(all_words.last()@, second, first);
    }
}

/// A list may be filtered in parts: what is left of two lists put together
/// is what is left of the first, followed by what is left of the second.
pub proof fn filtering_works_part_by_part(
    front: Seq<String>,
    back: Seq<String>,
    given_words: Seq<Word>,
)
    ensures
        filtered(front + back, letters_of_each(given_words)) == filtered(
            front,
            letters_of_each(given_words),
        ) + filtered(back, letters_of_each(given_words)),
{
    let patterns = letters_of_each(given_words);
    Seq::filter_distributes_over_add(front, back, |text: String| survives(text@, patterns));
}

} // verus!
