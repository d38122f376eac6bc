//! Feedback patterns as they arrive from outside: one record for each
//! letter, with the feedback spelled out as a label.

use vstd::prelude::*;
use vstd::string::*;
use crate::letter::{
    is_ascii_alphabetic, to_ascii_lowercase, Letter, LetterState, INVALID_CHARACTER,
};
use crate::word::{word_has_five_letters, Word};

verus! {

broadcast use word_has_five_letters;

/// Message of the error raised for a pattern that is not five records long.
pub const INVALID_RECORD_COUNT: &'static str = "Word must have exactly 5 letters";

/// One letter of a pattern: its character and the label of its feedback,
/// one of `"unknown"`, `"correct"`, `"misplaced"` and `"absent"`.
pub struct LetterData {
    pub character: char,
    pub state: String,
}

/// The records of one pattern, in the order of its letters.
pub type WordData = Vec<LetterData>;

/// The feedback that a label names. A label that names none stands for
/// `Unknown`.
pub open spec fn state_of_label(label: Seq<char>) -> LetterState {
    if label == "correct"@ {
        LetterState::Correct
    } else if label == "misplaced"@ {
        LetterState::Misplaced
    } else if label == "absent"@ {
        LetterState::Absent
    } else {
        LetterState::Unknown
    }
}

/// The message with which a pattern is refused: [`INVALID_RECORD_COUNT`]
/// unless it has five records, [`INVALID_CHARACTER`] if it has five and one
/// of them holds something else than an ASCII letter. `None` for a pattern
/// that is accepted.
pub open spec fn refusal(records: Seq<LetterData>) -> Option<Seq<char>> {
    if records.len() != 5 {
        Some(INVALID_RECORD_COUNT@)
    } else if exists|i: int| 0 <= i < 5 && !is_ascii_alphabetic(#[trigger] records[i].character) {
        Some(INVALID_CHARACTER@)
    } else {
        None
    }
}

/// The letters that the records of a pattern describe.
pub open spec fn pattern_letters(records: Seq<LetterData>) -> Seq<Letter> {
    Seq::new(
        records.len(),
        |i: int|
            Letter {
                character: to_ascii_lowercase(records[i].character),
                state: state_of_label(records[i].state@),
            },
    )
}

fn same_text(a: &str, b: &str) -> (same: bool)
    ensures
        same == (a@ == b@),
{
    let n: usize = a.unicode_len();
    if n != b.unicode_len() {
        return false;
    }
    let mut i: usize = 0;
    while i < n
        invariant
            i <= n,
            n == a@.len(),
            n == b@.len(),
            forall|k: int| 0 <= k < i ==> a@[k] == b@[k],
        decreases n - i,
    {
        if a.get_char(i) != b.get_char(i) {
            return false;
        }
        i += 1;
    }
    assert(a@ =~= b@);
    true
}

/// Reads the label of a feedback. Any label but `"correct"`, `"misplaced"`
/// and `"absent"` is read as `Unknown`.
pub fn convert_letter_state(state: &str) -> (read: LetterState)
    ensures
        read == state_of_label(state@),
{
    if same_text(state, "correct") {
        LetterState::Correct
    } else if same_text(state, "misplaced") {
        LetterState::Misplaced
    } else if same_text(state, "absent") {
        LetterState::Absent
    } else {
        LetterState::Unknown
    }
}

/// Turns the records of one pattern into a word. The pattern is refused
/// unless it has exactly five records, each holding an ASCII letter.
pub fn convert_word_data(word_data: &WordData) -> (converted: Result<Word, String>)
    ensures
        match converted {
            Ok(word) => {
                &&& refusal(word_data@) is None
                &&& word@ == pattern_letters(word_data@)
                &&& word.wf()
            },
            Err(message) => refusal(word_data@) == Some(message@),
        },
{
    broadcast use to_string_from_display_ensures_for_str;

    if word_data.len() != 5 {
        return Err(INVALID_RECORD_COUNT.to_string());
    }
    let mut text = String::new();
    let mut i: usize = 0;
    while i < 5
        invariant
            i <= 5,
            word_data@.len() == 5,
            text@.len() == i,
            forall|k: int| 0 <= k < i ==> text@[k] == word_data@[k].character,
        decreases 5 - i,
    {
        text.push(word_data[i].character);
        i += 1;
    }
    let mut word = match Word::new(text.as_str()) {
        Ok(word) => word,
        Err(message) => {
            proof {
                let i = choose|i: int| 0 <= i < 5 && !is_ascii_alphabetic(#[trigger] text@[i]);
                assert(!is_ascii_alphabetic(word_data@[i].character));
            }
            return Err(message.to_string());
        },
    };
    assert forall|k: int| 0 <= k < 5 implies is_ascii_alphabetic(
        #[trigger] word_data@[k].character,
    ) by {
        assert(is_ascii_alphabetic(text@[k]));
    }
    let mut i: usize = 0;
    while i < 5
        invariant
            i <= 5,
            word_data@.len() == 5,
            word@.len() == 5,
            refusal(word_data@) is None,
            forall|k: int|
                0 <= k < 5 ==> (#[trigger] word@[k]).character == to_ascii_lowercase(
                    word_data@[k].character,
                ),
            forall|k: int|
                0 <= k < i ==> (#[trigger] word@[k]).state == state_of_label(
                    word_data@[k].state@,
                ),
            word.wf(),
        decreases 5 - i,
    {
        let state = convert_letter_state(word_data[i].state.as_str());
        word.letter_at_mut(i).set_state(state);
        i += 1;
    }
    Ok(word)
}

} // verus!
