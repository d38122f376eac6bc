use wordle_helper::letter::INVALID_CHARACTER;
use wordle_helper::word::INVALID_LENGTH;
use wordle_helper::{create_pattern, Letter, LetterState, Word};

#[test]
fn test_word_creation() {
    assert!(Word::new("hello").is_ok());
    assert!(Word::new("hi").is_err());
    assert!(Word::new("toolong").is_err());
    assert!(Word::new("12345").is_err());
}

#[test]
fn test_letter_states() {
    let mut word = Word::new("hello").unwrap();
    word.letter_at_mut(0).set_state(LetterState::Correct);
    word.letter_at_mut(1).set_state(LetterState::Misplaced);
    word.letter_at_mut(2).set_state(LetterState::Absent);

    assert_eq!(word.letter_at(0).state, LetterState::Correct);
    assert_eq!(word.letter_at(1).state, LetterState::Misplaced);
    assert_eq!(word.letter_at(2).state, LetterState::Absent);
}

#[test]
fn letter_starts_unknown_and_lowercase() {
    let letter = Letter::new('Q').unwrap();
    assert_eq!(letter.character, 'q');
    assert_eq!(letter.state, LetterState::Unknown);
    assert_eq!(Letter::new('a').unwrap().character, 'a');
    assert_eq!(Letter::new('z').unwrap().character, 'z');
    assert_eq!(Letter::new('A').unwrap().character, 'a');
    assert_eq!(Letter::new('Z').unwrap().character, 'z');
}

#[test]
fn letter_refuses_what_is_no_ascii_letter() {
    for c in ['1', ' ', '@', '[', '`', '{', 'é', 'ß', '\u{0}'] {
        assert_eq!(Letter::new(c), Err(INVALID_CHARACTER));
        assert_eq!(Letter::with_state(c, LetterState::Correct), Err(INVALID_CHARACTER));
    }
    assert_eq!(INVALID_CHARACTER, "Character must be an ASCII letter");
}

#[test]
fn letter_with_state_keeps_the_state() {
    let letter = Letter::with_state('M', LetterState::Absent).unwrap();
    assert_eq!(letter, Letter { character: 'm', state: LetterState::Absent });
}

#[test]
fn set_state_leaves_the_character() {
    let mut letter = Letter::new('k').unwrap();
    letter.set_state(LetterState::Misplaced);
    assert_eq!(letter, Letter { character: 'k', state: LetterState::Misplaced });
    letter.set_state(LetterState::Unknown);
    assert_eq!(letter, Letter { character: 'k', state: LetterState::Unknown });
}

#[test]
fn word_holds_its_letters_in_order() {
    let word = Word::new("CrAne").unwrap();
    let expected = ['c', 'r', 'a', 'n', 'e'];
    for (pos, c) in expected.iter().enumerate() {
        assert_eq!(*word.letter_at(pos), Letter { character: *c, state: LetterState::Unknown });
    }
}

#[test]
fn word_of_wrong_length_is_refused_for_its_length() {
    assert_eq!(Word::new(""), Err(INVALID_LENGTH));
    assert_eq!(Word::new("hi"), Err(INVALID_LENGTH));
    assert_eq!(Word::new("toolong"), Err(INVALID_LENGTH));
    assert_eq!(Word::new("1234"), Err(INVALID_LENGTH));
    assert_eq!(Word::new("abcé"), Err(INVALID_LENGTH));
    assert_eq!(INVALID_LENGTH, "Word must be exactly 5 letters");
}

#[test]
fn word_of_five_characters_is_refused_for_its_characters() {
    assert_eq!(Word::new("12345"), Err(INVALID_CHARACTER));
    assert_eq!(Word::new("hell0"), Err(INVALID_CHARACTER));
    assert_eq!(Word::new("he lo"), Err(INVALID_CHARACTER));
    assert_eq!(Word::new("héllo"), Err(INVALID_CHARACTER));
}

#[test]
fn word_renders_its_characters_without_the_states() {
    let mut word = Word::new("HeLLo").unwrap();
    assert_eq!(word.to_text(), "hello");
    word.letter_at_mut(3).set_state(LetterState::Correct);
    assert_eq!(word.to_text(), "hello");
}

#[test]
fn changing_one_letter_leaves_the_others() {
    let mut word = Word::new("plane").unwrap();
    word.letter_at_mut(4).set_state(LetterState::Absent);
    let untouched = Word::new("plane").unwrap();
    for pos in 0..4 {
        assert_eq!(word.letter_at(pos), untouched.letter_at(pos));
    }
    assert_eq!(*word.letter_at(4), Letter { character: 'e', state: LetterState::Absent });
}

#[test]
fn pattern_without_overrides_is_the_plain_word() {
    assert_eq!(create_pattern("track", vec![]), Word::new("track").unwrap());
}

#[test]
fn pattern_takes_the_last_override_of_a_position() {
    let pattern = create_pattern(
        "Stamp",
        vec![
            (0, LetterState::Correct),
            (4, LetterState::Absent),
            (0, LetterState::Misplaced),
        ],
    );
    assert_eq!(*pattern.letter_at(0), Letter { character: 's', state: LetterState::Misplaced });
    assert_eq!(*pattern.letter_at(1), Letter { character: 't', state: LetterState::Unknown });
    assert_eq!(*pattern.letter_at(2), Letter { character: 'a', state: LetterState::Unknown });
    assert_eq!(*pattern.letter_at(3), Letter { character: 'm', state: LetterState::Unknown });
    assert_eq!(*pattern.letter_at(4), Letter { character: 'p', state: LetterState::Absent });
}
