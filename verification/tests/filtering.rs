use wordle_helper::game_logic::filter_words;
use wordle_helper::{create_pattern, LetterState, Word};

fn texts(words: &[&str]) -> Vec<String> {
    words.iter().map(|w| w.to_string()).collect()
}

#[test]
fn test_filter_words() {
    let all_words = vec![
        "paint".to_string(),
        "taint".to_string(),
        "saint".to_string(),
        "print".to_string(),
    ];

    let mut pattern = Word::new("paint").unwrap();
    pattern.letter_at_mut(0).set_state(LetterState::Correct);
    pattern.letter_at_mut(1).set_state(LetterState::Correct);

    let filtered = filter_words(&all_words, &[pattern]);
    assert!(filtered.contains(&"paint".to_string()));
    assert!(!filtered.contains(&"saint".to_string()));
}

#[test]
fn test_filter_words_basic() {
    let all_words = vec![
        "paint".to_string(),
        "taint".to_string(),
        "saint".to_string(),
        "print".to_string(),
        "brain".to_string(),
    ];

    // Test single pattern
    let pattern = create_pattern(
        "paint",
        vec![
            (0, LetterState::Correct), // 'p' correct
            (1, LetterState::Correct), // 'a' correct
        ],
    );

    let filtered = filter_words(&all_words, &[pattern]);
    assert_eq!(filtered, vec!["paint".to_string()]);
}

#[test]
fn test_filter_words_multiple_patterns() {
    let all_words = vec![
        "paint".to_string(),
        "taint".to_string(),
        "saint".to_string(),
        "print".to_string(),
        "brain".to_string(),
    ];

    // Test multiple patterns
    let pattern1 = create_pattern(
        "saint",
        vec![
            (4, LetterState::Correct), // 't' correct at end
        ],
    );
    let pattern2 = create_pattern(
        "brain",
        vec![
            (1, LetterState::Absent), // 'r' absent
        ],
    );

    let filtered = filter_words(&all_words, &[pattern1, pattern2]);
    assert!(filtered.contains(&"paint".to_string()));
    assert!(filtered.contains(&"saint".to_string()));
    assert!(!filtered.contains(&"print".to_string()));
}

#[test]
fn test_filter_words_edge_cases() {
    // Test empty word list
    let empty_words: Vec<String> = vec![];
    let pattern = Word::new("tests").unwrap();
    assert!(filter_words(&empty_words, &[pattern]).is_empty());

    // Test empty patterns
    let words = vec!["hello".to_string()];
    let empty_patterns: Vec<Word> = vec![];
    assert_eq!(filter_words(&words, &empty_patterns), words);

    // Test invalid words in list
    let invalid_words = vec![
        "valid".to_string(),
        "toolong".to_string(),
        "shor".to_string(), // short
    ];
    let pattern = Word::new("valid").unwrap();
    let filtered = filter_words(&invalid_words, &[pattern]);
    assert_eq!(filtered.len(), 1);
    assert!(filtered.contains(&"valid".to_string()));
}

#[test]
fn test_filter_words_complex_patterns() {
    let all_words = vec![
        "belle".to_string(),
        "steel".to_string(),
        "spell".to_string(),
        "eagle".to_string(),
        "whale".to_string(),
    ];

    // Test pattern with duplicate letters
    let pattern1 = create_pattern(
        "spell",
        vec![
            (0, LetterState::Absent),    // 's' absent
            (1, LetterState::Absent),    // 'p' absent
            (2, LetterState::Misplaced), // 'e' misplaced
            (3, LetterState::Correct),   // 'l' correct
            (4, LetterState::Misplaced), // 'l' misplaced
        ],
    );

    let filtered = filter_words(&all_words, &[pattern1]);
    assert!(filtered.contains(&"belle".to_string()));
    assert!(!filtered.contains(&"spell".to_string()));
}

#[test]
fn misplaced_copies_are_looked_for_but_not_counted() {
    let all_words = texts(&["belle", "steel", "spell", "eagle", "whale"]);
    let pattern = create_pattern(
        "spell",
        vec![
            (0, LetterState::Absent),
            (1, LetterState::Absent),
            (2, LetterState::Misplaced),
            (3, LetterState::Correct),
            (4, LetterState::Misplaced),
        ],
    );
    // `eagle` and `whale` hold a single `l`, in the place marked correct
    assert_eq!(filter_words(&all_words, &[pattern]), texts(&["belle", "eagle", "whale"]));
}

#[test]
fn empty_list_stays_empty_for_any_patterns() {
    let none: Vec<String> = vec![];
    assert_eq!(filter_words(&none, &[]), none);
    let patterns = [
        create_pattern("crane", vec![(0, LetterState::Correct)]),
        create_pattern("wound", vec![(2, LetterState::Absent)]),
    ];
    assert_eq!(filter_words(&none, &patterns), none);
}

#[test]
fn no_patterns_keep_every_word_in_order() {
    let words = texts(&["zebra", "apple", "mango", "apple", "crane"]);
    assert_eq!(filter_words(&words, &[]), words);
}

#[test]
fn entries_that_are_no_words_are_dropped_without_patterns_too() {
    let words = texts(&["crane", "", "toolong", "ab3de", "héllo", "shor", "Mango"]);
    assert_eq!(filter_words(&words, &[]), texts(&["crane", "Mango"]));
}

#[test]
fn survivors_keep_their_order_and_their_number() {
    let words = texts(&["slate", "crane", "plane", "SLATE", "brick", "slate", "plant", "stale"]);
    // `a` in the middle, no `r` anywhere
    let pattern = create_pattern(
        "crave",
        vec![(2, LetterState::Correct), (1, LetterState::Absent)],
    );
    assert_eq!(
        filter_words(&words, &[pattern]),
        texts(&["slate", "plane", "SLATE", "slate", "plant", "stale"])
    );
}

#[test]
fn every_pattern_must_be_met() {
    let words = texts(&["paint", "taint", "saint", "print", "brain"]);
    let ends_in_t = create_pattern("saint", vec![(4, LetterState::Correct)]);
    let without_r = create_pattern("brain", vec![(1, LetterState::Absent)]);
    assert_eq!(
        filter_words(&words, &[ends_in_t.clone()]),
        texts(&["paint", "taint", "saint", "print"])
    );
    assert_eq!(
        filter_words(&words, &[without_r.clone()]),
        texts(&["paint", "taint", "saint"])
    );
    let both = texts(&["paint", "taint", "saint"]);
    assert_eq!(filter_words(&words, &[ends_in_t.clone(), without_r.clone()]), both);
    assert_eq!(filter_words(&words, &[without_r, ends_in_t]), both);
}

#[test]
fn filtering_leaves_its_input_alone() {
    let words = texts(&["crane", "plane"]);
    let before = words.clone();
    let pattern = create_pattern("plane", vec![(0, LetterState::Correct)]);
    assert_eq!(filter_words(&words, &[pattern]), texts(&["plane"]));
    assert_eq!(words, before);
}
