//! A single letter of a word together with the feedback given for it.

use vstd::prelude::*;

verus! {

/// Message of the error raised for a character that is not an ASCII letter.
pub const INVALID_CHARACTER: &'static str = "Character must be an ASCII letter";

/// Feedback given for one letter of a guess.
#[derive(Debug, Clone, Copy, PartialEq, Eq, Structural)]
pub enum LetterState {
    /// Nothing is known about the letter.
    Unknown,
    /// Right letter in the right position.
    Correct,
    /// Right letter in the wrong position.
    Misplaced,
    /// The letter does not occur, beyond the copies confirmed elsewhere.
    Absent,
}

/// `c` is one of `A..=Z` or `a..=z`.
pub open spec fn is_ascii_alphabetic(c: char) -> bool {
    ('a' <= c && c <= 'z') || ('A' <= c && c <= 'Z')
}

/// `c` is one of `a..=z`.
pub open spec fn is_ascii_lowercase(c: char) -> bool {
    'a' <= c && c <= 'z'
}

/// `A..=Z` mapped to `a..=z`; every other character is left as it is.
pub open spec fn to_ascii_lowercase(c: char) -> char {
    if 'A' <= c && c <= 'Z' {
        ((c as u8) + 32) as char
    } else {
        c
    }
}

/// A lowercase ASCII letter and the feedback attached to it.
#[derive(Debug, Clone, Copy, PartialEq, Eq, Structural)]
pub struct Letter {
    pub character: char,
    pub state: LetterState,
}

fn is_alphabetic(c: char) -> (b: bool)
    ensures
        b == is_ascii_alphabetic(c),
{
    (c >= 'a' && c <= 'z') || (c >= 'A' && c <= 'Z')
}

fn lowercased(c: char) -> (lower: char)
    ensures
        lower == to_ascii_lowercase(c),
{
    if c >= 'A' && c <= 'Z' {
        let code: u8 = c as u8;
        (code + 32) as char
    } else {
        c
    }
}

impl Letter {
    /// The invariant of a letter: its character is a lowercase ASCII letter.
    pub open spec fn wf(&self) -> bool {
        is_ascii_lowercase(self.character)
    }

    /// A letter about which nothing is known yet. Upper case is folded to
    /// lower case; anything that is not an ASCII letter is refused.
    pub fn new(c: char) -> (made: Result<Self, &'static str>)
        ensures
            match made {
                Ok(letter) => {
                    &&& is_ascii_alphabetic(c)
                    &&& letter == (Letter {
                        character: to_ascii_lowercase(c),
                        state: LetterState::Unknown,
                    })
                    &&& letter.wf()
                },
                Err(message) => !is_ascii_alphabetic(c) && message@ == INVALID_CHARACTER@,
            },
    {
        Letter::with_state(c, LetterState::Unknown)
    }

    /// A letter carrying the given feedback. Upper case is folded to lower
    /// case; anything that is not an ASCII letter is refused.
    pub fn with_state(c: char, state: LetterState) -> (made: Result<Self, &'static str>)
        ensures
            match made {
                Ok(letter) => {
                    &&& is_ascii_alphabetic(c)
                    &&& letter == (Letter { character: to_ascii_lowercase(c), state })
                    &&& letter.wf()
                },
                Err(message) => !is_ascii_alphabetic(c) && message@ == INVALID_CHARACTER@,
            },
    {
        if !is_alphabetic(c) {
            return Err(INVALID_CHARACTER);
        }
        Ok(Self { character: lowercased(c), state })
    }

    /// Replaces the feedback and leaves the character alone.
    pub fn set_state(&mut self, state: LetterState)
        ensures
            *final(self) == (Letter { character: old(self).character, state }),
            old(self).wf() ==> final(self).wf(),
    {
        self.state = state;
    }
}

} // verus!
