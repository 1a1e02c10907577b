use terming::{Char, EngineError, InvalidCell};

#[test]
fn blank_cell_from_empty_text() {
    let cell = Char::new(String::new()).unwrap();
    assert_eq!(cell.to_string(), " ");
    assert!(cell.is_blank());
    assert_eq!(cell, Char::default());
}

#[test]
fn single_ascii_character_is_kept() {
    let cell = Char::new("X".to_string()).unwrap();
    assert_eq!(cell.to_string(), "X");
    assert_eq!(cell.text(), "X");
    assert!(!cell.is_blank());
}

#[test]
fn single_space_is_the_blank_cell() {
    let cell = Char::new(" ".to_string()).unwrap();
    assert!(cell.is_blank());
    assert_eq!(cell, Char::default());
}

#[test]
fn combining_sequence_is_one_cell() {
    let text = "e\u{301}".to_string();
    let cell = Char::new(text.clone()).unwrap();
    assert_eq!(cell.to_string(), text);
}

#[test]
fn joined_emoji_is_one_cell() {
    let text = "\u{1F468}\u{200D}\u{1F469}\u{200D}\u{1F467}".to_string();
    let cell = Char::new(text.clone()).unwrap();
    assert_eq!(cell.to_string(), text);
}

#[test]
fn carriage_return_line_feed_is_one_cell() {
    let cell = Char::new("\r\n".to_string()).unwrap();
    assert_eq!(cell.to_string(), "\r\n");
}

#[test]
fn two_characters_are_refused() {
    let refused = Char::new("ab".to_string());
    assert_eq!(
        refused.err(),
        Some(EngineError::Construction(InvalidCell { text: "ab".to_string() }))
    );
}

#[test]
fn two_clusters_with_marks_are_refused() {
    let text = "e\u{301}o\u{308}".to_string();
    let refused = Char::new(text.clone());
    assert_eq!(refused.err(), Some(EngineError::Construction(InvalidCell { text })));
}

#[test]
fn count_decides_what_is_built() {
    assert_eq!(Char::from_counted("Q".to_string(), 1).unwrap().to_string(), "Q");
    assert!(Char::from_counted(String::new(), 0).unwrap().is_blank());
    assert_eq!(
        Char::from_counted("no".to_string(), 2).err(),
        Some(EngineError::Construction(InvalidCell { text: "no".to_string() }))
    );
}

#[test]
fn cell_from_char_shows_the_char() {
    assert_eq!(Char::from('X').to_string(), "X");
    assert_eq!(Char::from('\u{e9}').to_string(), "\u{e9}");
    assert_eq!(Char::from(' '), Char::default());
}

#[test]
fn cells_compare_by_text() {
    let one = Char::from('a');
    let same = Char::new("a".to_string()).unwrap();
    let other = Char::from('b');
    assert!(one == same);
    assert!(one != other);
    assert_eq!(one.clone(), one);
}
