use crossterm::event::KeyCode;
use lime::buffer::{Buffer, Movement, SaveError, Selection};

fn buffer_with(text: &str) -> Buffer {
    Buffer::from_file_text(String::from("notes.txt"), text)
}

#[test]
fn empty_buffer_is_blank() {
    let b = Buffer::empty();
    assert_eq!(b.text(), "");
    assert_eq!(b.position(), 0);
    assert_eq!(b.selection(), None);
    assert!(!b.is_modified());
    assert_eq!(b.file(), None);
}

#[test]
fn opened_text_starts_at_offset_zero() {
    let b = buffer_with("abc\ndef");
    assert_eq!(b.text(), "abc\ndef");
    assert_eq!(b.position(), 0);
    assert!(!b.is_modified());
    assert_eq!(b.file(), Some(String::from("notes.txt")));
    assert_eq!(b.len_chars(), 7);
}

#[test]
fn end_to_end_insert_delete_move() {
    let mut b = Buffer::empty();
    b.insert("hi");
    assert_eq!(b.text(), "hi");
    assert_eq!(b.position(), 2);
    b.delete_character();
    assert_eq!(b.text(), "h");
    assert_eq!(b.position(), 1);
    b.handle_movement(Movement::Left);
    assert_eq!(b.position(), 0);
    b.handle_movement(Movement::Left);
    assert_eq!(b.position(), 0);
}

#[test]
fn insert_then_delete_restores() {
    let mut b = buffer_with("héllo\nworld");
    b.handle_movement(Movement::Right);
    b.handle_movement(Movement::Right);
    let before = b.text();
    b.insert_character('ß');
    assert_eq!(b.text(), "hé\u{df}llo\nworld");
    assert_eq!(b.position(), 3);
    b.delete_character();
    assert_eq!(b.text(), before);
    assert_eq!(b.position(), 2);
}

#[test]
fn multibyte_insert_advances_by_characters() {
    let mut b = Buffer::empty();
    b.insert("héllo");
    assert_eq!(b.position(), 5);
    b.insert_character('é');
    assert_eq!(b.position(), 6);
    assert_eq!(b.text(), "hélloé");
}

#[test]
fn insert_in_middle() {
    let mut b = buffer_with("ad");
    b.handle_movement(Movement::Right);
    b.insert("bc");
    assert_eq!(b.text(), "abcd");
    assert_eq!(b.position(), 3);
    assert!(b.is_modified());
}

#[test]
fn empty_insert_changes_nothing() {
    let mut b = buffer_with("x");
    b.insert("");
    assert!(!b.is_modified());
    assert_eq!(b.position(), 0);
    assert_eq!(b.text(), "x");
}

#[test]
fn delete_at_start_is_noop() {
    let mut b = buffer_with("abc");
    b.delete_character();
    assert_eq!(b.text(), "abc");
    assert_eq!(b.position(), 0);
    assert!(!b.is_modified());
}

#[test]
fn left_at_start_and_right_at_end_are_noops() {
    let mut b = buffer_with("ab");
    b.handle_movement(Movement::Left);
    assert_eq!(b.position(), 0);
    b.handle_movement(Movement::Right);
    b.handle_movement(Movement::Right);
    assert_eq!(b.position(), 2);
    b.handle_movement(Movement::Right);
    assert_eq!(b.position(), 2);
}

#[test]
fn cursor_stays_in_range_over_many_steps() {
    let mut b = Buffer::empty();
    let steps = [Movement::Right, Movement::Down, Movement::Up, Movement::Left];
    for round in 0..40usize {
        match round % 5 {
            0 => b.insert("ab\n"),
            1 => b.delete_character(),
            2 => b.insert_character('z'),
            _ => b.handle_movement(steps[round % 4]),
        }
        assert!(b.position() <= b.len_chars());
        b.handle_movement(Movement::Right);
        assert!(b.position() <= b.len_chars());
    }
}

#[test]
fn down_keeps_column_through_short_line() {
    let mut b = buffer_with("abcde\nfg\nhijklmno");
    for _ in 0..4 {
        b.handle_movement(Movement::Right);
    }
    assert_eq!((b.get_line(), b.get_column()), (0, 4));
    b.handle_movement(Movement::Down);
    assert_eq!((b.get_line(), b.get_column()), (1, 2));
    b.handle_movement(Movement::Down);
    assert_eq!((b.get_line(), b.get_column()), (2, 4));
    assert_eq!(b.position(), 13);
    b.handle_movement(Movement::Up);
    b.handle_movement(Movement::Up);
    assert_eq!((b.get_line(), b.get_column()), (0, 4));
}

#[test]
fn vertical_moves_at_edges_are_noops() {
    let mut b = buffer_with("ab\ncd");
    b.handle_movement(Movement::Right);
    b.handle_movement(Movement::Up);
    assert_eq!(b.position(), 1);
    b.handle_movement(Movement::Down);
    assert_eq!(b.position(), 4);
    b.handle_movement(Movement::Down);
    assert_eq!(b.position(), 4);
}

#[test]
fn horizontal_move_forgets_column() {
    let mut b = buffer_with("abcd\nx\nabcd");
    for _ in 0..3 {
        b.handle_movement(Movement::Right);
    }
    b.handle_movement(Movement::Down);
    assert_eq!((b.get_line(), b.get_column()), (1, 1));
    b.handle_movement(Movement::Left);
    b.handle_movement(Movement::Down);
    assert_eq!((b.get_line(), b.get_column()), (2, 0));
}

#[test]
fn line_and_column_round_trip() {
    let b = buffer_with("one\n\ntwo\nthree");
    for p in 0..=b.len_chars() {
        let line = b.line_of(p);
        assert_eq!(b.offset_of_line_start(line) + b.column_of(p), p);
    }
    assert_eq!(b.line_of(4), 1);
    assert_eq!(b.line_of(5), 2);
    assert_eq!(b.column_of(7), 2);
    assert_eq!(b.offset_of_line_start(3), 9);
    assert_eq!(b.offset_of_line_start(4), 14);
}

#[test]
fn only_line_feed_ends_a_line() {
    let b = buffer_with("a\rb\r\nc");
    assert_eq!(b.line_of(3), 0);
    assert_eq!(b.line_of(5), 1);
}

#[test]
fn save_without_file_is_refused() {
    let b = Buffer::empty();
    assert_eq!(b.save_request(), Err(SaveError::NoDestination));
}

#[test]
fn save_with_file_hands_out_path_and_text() {
    let mut b = buffer_with("abc");
    b.insert_character('x');
    assert_eq!(
        b.save_request(),
        Ok((String::from("notes.txt"), String::from("xabc")))
    );
    assert!(b.is_modified());
    b.mark_saved();
    assert!(!b.is_modified());
    assert_eq!(b.text(), "xabc");
}

#[test]
fn selection_normalizes() {
    assert_eq!(Selection { start: 5, end: 2 }.normalized(), (2, 5));
    assert_eq!(Selection { start: 1, end: 3 }.normalized(), (1, 3));
}

#[test]
fn arrow_keys_give_movements() {
    assert_eq!(Movement::from_key_code(KeyCode::Up), Some(Movement::Up));
    assert_eq!(Movement::from_key_code(KeyCode::Left), Some(Movement::Left));
    assert_eq!(Movement::from_key_code(KeyCode::Right), Some(Movement::Right));
    assert_eq!(Movement::from_key_code(KeyCode::Down), Some(Movement::Down));
    assert_eq!(Movement::from_key_code(KeyCode::Char('a')), None);
}
