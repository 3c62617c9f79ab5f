use stm15::input::InputField;
use stm15::screen::{Color, Span, Style};

fn typed(value: &str) -> InputField {
    InputField::new("Name", value)
}

fn state(f: &InputField) -> (String, usize) {
    (f.buffer.clone(), f.cursor)
}

fn texts(line: &[Span]) -> Vec<String> {
    line.iter().map(|s| s.text.clone()).collect()
}

const MARK: Style =
    Style { fg: Some(Color::Black), bg: Some(Color::Yellow), bold: true, reversed: false };
const ACTIVE: Style = Style { fg: Some(Color::Yellow), bg: None, bold: false, reversed: true };
const IDLE: Style = Style { fg: Some(Color::White), bg: None, bold: false, reversed: false };

#[test]
fn a_new_field_has_its_cursor_at_the_end() {
    assert_eq!(state(&typed("abc")), ("abc".to_string(), 3));
    assert_eq!(state(&typed("ä")), ("ä".to_string(), 2));
    assert_eq!(typed("x").label, "Name");
}

#[test]
fn typing_and_taking_back() {
    let mut f = typed("ac");
    f.cursor_left();
    f.handle_key('b');
    assert_eq!(state(&f), ("abc".to_string(), 2));
    f.backspace();
    assert_eq!(state(&f), ("ac".to_string(), 1));
    f.handle_key('é');
    assert_eq!(state(&f), ("aéc".to_string(), 2));
    assert!(!f.accepts_char());
    assert!(f.accepts_backspace());
    f.backspace();
    assert_eq!(state(&f), ("ac".to_string(), 1));
    f.delete();
    assert_eq!(state(&f), ("a".to_string(), 1));
    f.delete();
    assert_eq!(state(&f), ("a".to_string(), 1));
    f.home();
    f.backspace();
    assert_eq!(state(&f), ("a".to_string(), 0));
    f.delete();
    assert_eq!(state(&f), ("".to_string(), 0));
}

#[test]
fn the_cursor_moves_by_bytes_within_the_text() {
    let mut f = typed("aé");
    f.cursor_right();
    assert_eq!(f.cursor, 3);
    f.cursor_left();
    assert_eq!(f.cursor, 2);
    assert!(!f.accepts_char());
    assert!(!f.accepts_delete());
    assert!(f.accepts_backspace());
    f.cursor_left();
    assert_eq!(f.cursor, 1);
    assert!(f.accepts_char());
    f.home();
    assert_eq!(f.cursor, 0);
    f.cursor_left();
    assert_eq!(f.cursor, 0);
    f.cursor_right();
    assert_eq!(f.cursor, 1);
    f.end();
    assert_eq!(f.cursor, 3);
    assert!(!f.accepts_backspace());
}

#[test]
fn a_field_that_is_not_edited() {
    let line = typed("ab").render(40, false);
    assert_eq!(texts(&line), vec!["          Name: ", "a", "b"]);
    assert!(line.iter().all(|s| s.style == IDLE));
    let line = typed("").render(40, true);
    assert_eq!(texts(&line), vec!["          Name: ", " "]);
    assert!(line.iter().all(|s| s.style == ACTIVE));
}

#[test]
fn the_cursor_of_an_edited_field_is_marked() {
    let mut f = typed("abc");
    f.cursor_left();
    let line = f.render(40, true);
    assert_eq!(texts(&line), vec!["          Name: ", "a", "b", "c"]);
    assert_eq!(line[2].style, ACTIVE);
    assert_eq!(line[3].style, MARK);
    f.end();
    assert!(f.render(40, true).iter().all(|s| s.style == ACTIVE));
}

#[test]
fn a_long_text_is_shown_in_a_window() {
    let mut f = typed("abcdefgh");
    assert_eq!(texts(&f.render(22, true)), vec!["          Name: ", "f", "g", "h"]);
    f.home();
    let line = f.render(22, true);
    assert_eq!(texts(&line), vec!["          Name: ", "a", "b", "c", "d"]);
    assert_eq!(line[1].style, MARK);
    f.cursor = 4;
    let line = f.render(22, true);
    assert_eq!(texts(&line), vec!["          Name: ", "b", "c", "d", "e"]);
    assert_eq!(line[4].style, MARK);
}

#[test]
fn without_room_there_is_an_ellipsis() {
    for width in [0, 5, 18] {
        let line = typed("abc").render(width, true);
        assert_eq!(texts(&line), vec!["          Name: ", "…"]);
        assert_eq!(
            line[1].style,
            Style { fg: Some(Color::DarkGray), bg: None, bold: false, reversed: false }
        );
    }
    assert_eq!(texts(&typed("abc").render(19, false)), vec!["          Name: ", " "]);
}

#[test]
fn a_cursor_beyond_the_cells_that_are_counted() {
    let f = typed(&"x".repeat(65536 + 2));
    let line = f.render(22, true);
    assert_eq!(line.len(), 1 + 4 + 1);
    assert_eq!(line[5].text, " ");
    assert_eq!(line[5].style, MARK);
}

#[test]
fn a_window_that_would_cut_a_character_is_refused() {
    let mut f = typed("éé");
    assert!(f.accepts_width(40));
    assert!(!f.accepts_width(20));
    f.home();
    assert!(f.accepts_width(20));
    assert!(!f.accepts_width(19));
    assert!(f.accepts_width(18));
    let wide = InputField::new(&"l".repeat(65532), "");
    assert!(!wide.accepts_width(10));
    let narrower = InputField::new(&"l".repeat(65531), "");
    assert!(narrower.accepts_width(10));
}
