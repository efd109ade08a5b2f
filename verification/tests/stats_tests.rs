use khudium::stats::{is_typable, is_word_end, TypingStats};

#[test]
fn space_and_enter_end_words() {
    assert!(is_word_end(57));
    assert!(is_word_end(28));
    assert!(!is_word_end(30));
    assert!(!is_word_end(0));
}

#[test]
fn modifiers_and_function_keys_are_not_typable() {
    for code in [1u16, 29, 42, 54, 56, 58, 97, 100, 125, 126, 59, 68, 87, 88, 103, 105, 106, 108, 15, 14, 0] {
        assert!(!is_typable(code), "code {code}");
    }
    for code in [16u16, 30, 44, 2, 57, 28, 53] {
        assert!(is_typable(code), "code {code}");
    }
}

#[test]
fn counts_characters_and_words() {
    let mut stats = TypingStats::default();
    assert!(stats.started.is_none());
    // "hi there" + Enter
    for code in [35u16, 23, 57, 20, 35, 18, 19, 18, 28] {
        stats.on_key_press(code);
    }
    assert_eq!(stats.chars, 7);
    assert_eq!(stats.words, 2);
    assert!(!stats.pending_word());
    assert!(stats.started.is_some());
}

#[test]
fn repeated_word_ends_count_one_word() {
    let mut stats = TypingStats::new();
    for code in [57u16, 57, 30, 57, 57, 28] {
        stats.on_key_press(code);
    }
    assert_eq!(stats.chars, 1);
    assert_eq!(stats.words, 1);
}

#[test]
fn ignored_keys_change_nothing() {
    let mut stats = TypingStats::new();
    for code in [42u16, 29, 14, 105, 0, 1] {
        stats.on_key_press(code);
    }
    assert_eq!(stats.chars, 0);
    assert_eq!(stats.words, 0);
    assert!(stats.started.is_none());
    assert!(!stats.pending_word());
}

#[test]
fn clock_starts_on_first_character_only() {
    let mut stats = TypingStats::new();
    stats.on_key_press(57);
    assert!(stats.started.is_none());
    stats.on_key_press(30);
    let first = stats.started;
    assert!(first.is_some());
    stats.on_key_press(31);
    assert_eq!(stats.started, first);
}

#[test]
fn display_text_formats_rates() {
    assert_eq!(TypingStats::display_text(0, 0), "WPM: 0  CPM: 0");
    assert_eq!(TypingStats::display_text(42, 215), "WPM: 42  CPM: 215");
    assert_eq!(TypingStats::display_text(10, 100), "WPM: 10  CPM: 100");
    assert_eq!(
        TypingStats::display_text(u128::MAX, 9),
        format!("WPM: {}  CPM: 9", u128::MAX)
    );
}

#[test]
fn words_follow_the_key_history() {
    let mut stats = TypingStats::default();
    // Space and Enter before any character close nothing.
    for code in [57u16, 28, 42, 57] {
        stats.on_key_press(code);
    }
    assert_eq!((stats.chars, stats.words, stats.pending_word()), (0, 0, false));
    assert!(stats.started.is_none());
    // A second Space right after a word changes nothing.
    for code in [30u16, 57, 57, 28] {
        stats.on_key_press(code);
    }
    assert_eq!((stats.chars, stats.words, stats.pending_word()), (1, 1, false));
    assert!(stats.started.is_some());
    // Ignored keys between a character and Space do not end the word early.
    for code in [31u16, 42, 14, 28] {
        stats.on_key_press(code);
    }
    assert_eq!((stats.chars, stats.words, stats.pending_word()), (2, 2, false));
    stats.on_key_press(32);
    assert!(stats.pending_word());
}

#[test]
fn keys_that_type_nothing_are_not_counted() {
    // Insert, Delete, Home, End, Page Up, Page Down and the mouse buttons.
    for code in [110u16, 111, 102, 107, 104, 109, 272, 273, 274, 275, 276] {
        assert!(!is_typable(code), "code {code}");
    }
    let mut stats = TypingStats::default();
    for code in [111u16, 272, 102, 30, 110, 57] {
        stats.on_key_press(code);
    }
    assert_eq!((stats.chars, stats.words), (1, 1));
}
