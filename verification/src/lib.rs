//! Narrowing a list of five-letter words by the feedback of earlier guesses.

pub mod command;
pub mod data;
pub mod game_logic;
pub mod laws;
pub mod letter;
pub mod word;

pub use letter::{Letter, LetterState};
pub use word::{create_pattern, Word};
