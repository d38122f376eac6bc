//! A word of five letters, used both as a candidate and as a feedback pattern.

use vstd::prelude::*;
use vstd::string::*;
use crate::letter::{
    is_ascii_alphabetic, to_ascii_lowercase, Letter, LetterState, INVALID_CHARACTER,
};

verus! {

/// Message of the error raised for a text that is not five characters long.
pub const INVALID_LENGTH: &'static str = "Word must be exactly 5 letters";

/// Five letters in a fixed order.
#[derive(Debug, Clone, PartialEq, Eq)]
pub struct Word {
    letters: [Letter; 5],
}

impl View for Word {
    type V = Seq<Letter>;

    closed spec fn view(&self) -> Seq<Letter> {
        self.letters@
    }
}

/// Every word has exactly five letters.
pub broadcast proof fn word_has_five_letters(word: Word)
    ensures
        #[trigger] word@.len() == 5,
{
}

/// `text` can be made into a word: five characters, each an ASCII letter.
pub open spec fn is_word_text(text: Seq<char>) -> bool {
    &&& text.len() == 5
    &&& forall|i: int| 0 <= i < text.len() ==> is_ascii_alphabetic(#[trigger] text[i])
}

/// The letters that a text spells: each character in lower case, nothing
/// known about any of them.
pub open spec fn unmarked_letters(text: Seq<char>) -> Seq<Letter> {
    Seq::new(
        text.len(),
        |i: int| Letter { character: to_ascii_lowercase(text[i]), state: LetterState::Unknown },
    )
}

/// The characters of a sequence of letters, in order.
pub open spec fn characters(letters: Seq<Letter>) -> Seq<char> {
    letters.map_values(|l: Letter| l.character)
}

/// The feedback that a list of overrides leaves at a position: that of the
/// last override naming the position, `Unknown` where none names it.
pub open spec fn state_after(states: Seq<(usize, LetterState)>, pos: int) -> LetterState
    decreases states.len(),
{
    if states.len() == 0 {
        LetterState::Unknown
    } else if states.last().0 == pos {
        states.last().1
    } else {
        state_after(states.drop_last(), pos)
    }
}

/// The letters that a text spells, each with the feedback that the overrides
/// leave at its position.
pub open spec fn marked_letters(text: Seq<char>, states: Seq<(usize, LetterState)>) -> Seq<
    Letter,
> {
    Seq::new(
        text.len(),
        |i: int| Letter { character: to_ascii_lowercase(text[i]), state: state_after(states, i) },
    )
}

/// `String::push` of the standard library appends the character to the end
/// of the string. Taken on trust from its documentation.
pub assume_specification[ String::push ](s: &mut String, ch: char)
    ensures
        final(s)@ == old(s)@.push(ch),
;

impl Word {
    /// The invariant of a word: each of its letters is a lowercase ASCII letter.
    pub open spec fn wf(&self) -> bool {
        forall|i: int| 0 <= i < self@.len() ==> (#[trigger] self@[i]).wf()
    }

    /// Reads a word from a text of five ASCII letters, folding upper case to
    /// lower case. A text of another length is refused with
    /// [`INVALID_LENGTH`]; one of five characters that holds anything but
    /// ASCII letters is refused with [`INVALID_CHARACTER`].
    pub fn new(word: &str) -> (made: Result<Self, &'static str>)
        ensures
            match made {
                Ok(w) => is_word_text(word@) && w@ == unmarked_letters(word@) && w.wf(),
                Err(message) => {
                    &&& !is_word_text(word@)
                    &&& word@.len() != 5 ==> message@ == INVALID_LENGTH@
                    &&& word@.len() == 5 ==> message@ == INVALID_CHARACTER@
                },
            },
    {
        if word.unicode_len() != 5 {
            return Err(INVALID_LENGTH);
        }
        let blank = Letter { character: 'a', state: LetterState::Unknown };
        let mut letters: [Letter; 5] = [blank; 5];
        let mut i: usize = 0;
        while i < 5
            invariant
                i <= 5,
                word@.len() == 5,
                forall|k: int| 0 <= k < i ==> is_ascii_alphabetic(#[trigger] word@[k]),
                forall|k: int| 0 <= k < i ==> #[trigger] letters@[k] == unmarked_letters(word@)[k],
            decreases 5 - i,
        {
            match Letter::new(word.get_char(i)) {
                Ok(letter) => {
                    letters[i] = letter;
                },
                Err(message) => {
                    return Err(message);
                },
            }
            i += 1;
        }
        Ok(Word { letters })
    }

    /// The five characters in order, without the feedback.
    pub open spec fn text(&self) -> Seq<char> {
        characters(self@)
    }

    /// Renders the word as its five characters, ignoring the feedback.
    pub fn to_text(&self) -> (text: String)
        ensures
            text@ == self.text(),
    {
        let mut text = String::new();
        let mut i: usize = 0;
        while i < 5
            invariant
                i <= 5,
                self@.len() == 5,
                text@ == self.text().take(i as int),
            decreases 5 - i,
        {
            text.push(self.letters[i].character);
            i += 1;
        }
        text
    }

    /// The letter at a position, counted from zero.
    pub fn letter_at(&self, pos: usize) -> (letter: &Letter)
        requires
            pos < 5,
        ensures
            *letter == self@[pos as int],
    {
        &self.letters[pos]
    }

    /// The letter at a position, counted from zero, for the caller to change.
    /// The word keeps its other letters and takes whatever the caller leaves
    /// behind the reference.
    pub fn letter_at_mut(&mut self, pos: usize) -> (letter: &mut Letter)
        requires
            pos < 5,
        ensures
            *letter == old(self)@[pos as int],
            final(self)@ == old(self)@.update(pos as int, *final(letter)),
    {
        &mut self.letters[pos]
    }
}

/// Builds a pattern from a text of five ASCII letters and a list of
/// `(position, feedback)` overrides, applied in order: a later override of a
/// position replaces an earlier one, and a position that no override names
/// stays `Unknown`.
///
/// The text must read as a word and every position must lie below five;
/// called otherwise from unverified code, the function panics.
pub fn create_pattern(word: &str, states: Vec<(usize, LetterState)>) -> (pattern: Word)
    requires
        is_word_text(word@),
        forall|k: int| 0 <= k < states@.len() ==> (#[trigger] states@[k]).0 < 5,
    ensures
        pattern@ == marked_letters(word@, states@),
        pattern.wf(),
{
    let mut pattern = Word::new(word).unwrap();
    let mut k: usize = 0;
    while k < states.len()
        invariant
            k <= states@.len(),
            forall|j: int| 0 <= j < states@.len() ==> (#[trigger] states@[j]).0 < 5,
            pattern@ == marked_letters(word@, states@.take(k as int)),
            pattern.wf(),
        decreases states@.len() - k,
    {
        let (pos, state) = states[k];
        pattern.letter_at_mut(pos).set_state(state);
        proof {
            assert(states@.take(k + 1).drop_last() == states@.take(k as int));
        }
        k += 1;
    }
    proof {
        assert(states@.take(k as int) == states@);
    }
    pattern
}

} // verus!
