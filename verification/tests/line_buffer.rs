use mee::line::LineBuffer;

fn typed(text: &str) -> LineBuffer {
    let mut line = LineBuffer::new();
    for c in text.chars() {
        assert!(line.insert(c));
    }
    line
}

#[test]
fn new_line_is_empty_with_cursor_at_zero() {
    let line = LineBuffer::new();
    assert_eq!(line.text(), "");
    assert_eq!(line.cursor(), 0);
    assert_eq!(line.len(), 0);
    assert!(line.is_empty());
}

#[test]
fn from_text_puts_cursor_behind_the_end() {
    let line = LineBuffer::from_text("héllo");
    assert_eq!(line.text(), "héllo");
    assert_eq!(line.cursor(), 5);
    assert_eq!(line.len(), 5);
}

#[test]
fn insert_at_end_extends_and_advances() {
    let mut line = LineBuffer::new();
    assert!(line.insert('a'));
    assert_eq!((line.text().as_str(), line.cursor()), ("a", 1));
    assert!(line.insert('b'));
    assert_eq!((line.text().as_str(), line.cursor()), ("ab", 2));
}

#[test]
fn insert_in_middle_splices_between_the_halves() {
    let mut line = typed("held");
    assert!(line.move_left());
    assert!(line.move_left());
    assert_eq!(line.cursor(), 2);
    assert!(line.insert('l'));
    assert_eq!(line.text(), "helld");
    assert_eq!(line.cursor(), 3);
    assert!(line.insert('o'));
    assert_eq!(line.text(), "helold");
    assert_eq!(line.cursor(), 4);
}

#[test]
fn insert_at_column_zero_prepends() {
    let mut line = typed("bc");
    line.move_left();
    line.move_left();
    assert!(line.insert('a'));
    assert_eq!(line.text(), "abc");
    assert_eq!(line.cursor(), 1);
}

#[test]
fn delete_on_empty_line_is_noop() {
    let mut line = LineBuffer::new();
    assert!(!line.delete_before_cursor());
    assert_eq!(line.text(), "");
    assert_eq!(line.cursor(), 0);
}

#[test]
fn delete_at_column_zero_is_noop() {
    let mut line = typed("abc");
    line.move_left();
    line.move_left();
    line.move_left();
    assert_eq!(line.cursor(), 0);
    assert!(!line.delete_before_cursor());
    assert_eq!(line.text(), "abc");
    assert_eq!(line.cursor(), 0);
}

#[test]
fn delete_removes_the_character_left_of_the_cursor() {
    let mut line = typed("abcd");
    line.move_left();
    assert!(line.delete_before_cursor());
    assert_eq!(line.text(), "abd");
    assert_eq!(line.cursor(), 2);
    assert!(line.delete_before_cursor());
    assert_eq!(line.text(), "ad");
    assert_eq!(line.cursor(), 1);
}

#[test]
fn move_left_stops_at_column_zero() {
    let mut line = typed("ab");
    assert!(line.move_left());
    assert!(line.move_left());
    assert!(!line.move_left());
    assert_eq!(line.cursor(), 0);
    assert_eq!(line.text(), "ab");
}

#[test]
fn move_right_stops_at_the_bound() {
    let mut line = typed("abcdef");
    for _ in 0..6 {
        line.move_left();
    }
    assert!(line.move_right(2));
    assert!(line.move_right(2));
    assert!(!line.move_right(2));
    assert_eq!(line.cursor(), 2);
    assert!(!line.move_right(0));
    assert_eq!(line.cursor(), 2);
}

#[test]
fn move_right_stops_at_the_end_of_the_line() {
    let mut line = typed("ab");
    line.move_left();
    assert!(line.move_right(100));
    assert!(!line.move_right(100));
    assert_eq!(line.cursor(), 2);
    assert_eq!(line.text(), "ab");
}

#[test]
fn columns_count_characters_not_bytes() {
    let mut line = typed("añ€𝄞");
    assert_eq!(line.cursor(), 4);
    assert_eq!(line.len(), 4);
    assert!(line.delete_before_cursor());
    assert_eq!(line.text(), "añ€");
    assert_eq!(line.cursor(), 3);
    line.move_left();
    line.move_left();
    assert!(line.insert('é'));
    assert_eq!(line.text(), "aéñ€");
    assert_eq!(line.cursor(), 2);
}

#[test]
fn cursor_stays_within_the_line_under_any_sequence_of_operations() {
    let mut line = LineBuffer::new();
    let mut seed: u32 = 12345;
    for step in 0..2000u32 {
        seed = seed.wrapping_mul(1664525).wrapping_add(1013904223);
        match (seed >> 16) % 5 {
            0 => {
                line.insert(if step % 7 == 0 { ' ' } else { 'x' });
            }
            1 => {
                line.delete_before_cursor();
            }
            2 => {
                line.move_left();
            }
            3 => {
                line.move_right(((seed >> 8) % 64) as usize);
            }
            _ => {
                line.replace_token("word");
            }
        }
        assert!(line.cursor() <= line.len());
        assert_eq!(line.text().chars().count(), line.len());
    }
}

#[test]
fn token_of_the_line_is_taken_at_its_cursor() {
    let mut line = typed("foo bar baz");
    assert_eq!(line.token(), "baz");
    for _ in 0..6 {
        line.move_left();
    }
    assert_eq!(line.cursor(), 5);
    assert_eq!(line.token(), "bar");
    line.move_left();
    assert_eq!(line.token(), "");
}

#[test]
fn replace_token_in_the_line_moves_the_cursor_behind_the_suggestion() {
    let mut line = typed("foo bar baz");
    for _ in 0..6 {
        line.move_left();
    }
    line.replace_token("barricade");
    assert_eq!(line.text(), "foo barricade baz");
    assert_eq!(line.cursor(), 13);
}
