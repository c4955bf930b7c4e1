use crossterm::style::Color;
use lime::buffer::{Buffer, Movement};
use lime::ui::{blank_cell, paint_text, Canvas, Cell, Element, StatusBar, Terminal};

fn red(c: char) -> Cell {
    Cell { background: Color::Red, foreground: Color::Blue, content: c }
}

#[test]
fn fresh_grid_is_blank() {
    let t = Terminal::with_size(3, 2);
    assert_eq!((t.width(), t.height()), (3, 2));
    assert_eq!(t.get(2, 1), Some(&blank_cell()));
    assert_eq!(blank_cell().content, ' ');
    assert_eq!(blank_cell().background, Color::Black);
    assert_eq!(blank_cell().foreground, Color::White);
}

#[test]
fn out_of_bounds_access_is_clipped() {
    let mut t = Terminal::with_size(3, 2);
    t.set(3, 0, red('a'));
    t.set(0, 2, red('b'));
    t.set(u16::MAX, u16::MAX, red('c'));
    assert_eq!(t.get(3, 0), None);
    assert_eq!(t.get(0, 2), None);
    assert_eq!(t.get(u16::MAX, u16::MAX), None);
    for y in 0..2 {
        for x in 0..3 {
            assert_eq!(t.get(x, y), Some(&blank_cell()));
        }
    }
}

#[test]
fn set_then_get_in_bounds() {
    let mut t = Terminal::with_size(4, 3);
    t.set(2, 1, red('q'));
    assert_eq!(t.get(2, 1), Some(&red('q')));
    assert_eq!(t.get(1, 2), Some(&blank_cell()));
}

#[test]
fn large_grid_indexes_without_overflow() {
    let mut t = Terminal::with_size(300, 300);
    t.set(299, 299, red('z'));
    assert_eq!(t.get(299, 299), Some(&red('z')));
}

#[test]
fn resize_discards_contents() {
    let mut t = Terminal::with_size(2, 2);
    t.set(1, 1, red('x'));
    t.resize(5, 1);
    assert_eq!((t.width(), t.height()), (5, 1));
    assert_eq!(t.get(1, 1), None);
    assert_eq!(t.get(4, 0), Some(&blank_cell()));
}

#[test]
fn frame_is_row_major() {
    let mut t = Terminal::with_size(2, 2);
    t.set(1, 0, red('b'));
    t.set(0, 1, red('c'));
    let f = t.frame();
    assert_eq!(f.len(), 4);
    let coords: Vec<(u16, u16)> = f.iter().map(|c| (c.0, c.1)).collect();
    assert_eq!(coords, vec![(0, 0), (1, 0), (0, 1), (1, 1)]);
    assert_eq!(f[1].2, red('b'));
    assert_eq!(f[2].2, red('c'));
}

fn status(c: char) -> Cell {
    Cell { background: Color::White, foreground: Color::Black, content: c }
}

#[test]
fn status_bar_shows_line_and_column() {
    let mut b = Buffer::from_file_text(String::from("f"), "ab\ncdef\n");
    for _ in 0..5 {
        b.handle_movement(Movement::Right);
    }
    let mut t = Terminal::with_size(12, 3);
    t.set(0, 0, red('k'));
    let bar = StatusBar { buffer: &b };
    assert_eq!(bar.label().iter().collect::<String>(), "(1, 2)");
    bar.render(&mut t);
    let row: String = (0..12).map(|x| t.get(x, 2).unwrap().content).collect();
    assert_eq!(row, "(1, 2)      ");
    for x in 0..12 {
        assert_eq!(t.get(x, 2).unwrap().background, Color::White);
    }
    assert_eq!(t.get(0, 0), Some(&red('k')));
    assert_eq!(t.get(0, 1), Some(&blank_cell()));
}

#[test]
fn status_bar_multi_digit_and_clipped() {
    let mut b = Buffer::empty();
    for _ in 0..12 {
        b.insert_character('\n');
    }
    b.insert("0123456789ab");
    let mut t = Terminal::with_size(5, 1);
    StatusBar { buffer: &b }.paint(&mut t);
    let row: String = (0..5).map(|x| t.get(x, 0).unwrap().content).collect();
    assert_eq!(row, "(12, ");
    assert_eq!(t.get(0, 0), Some(&status('(')));
}

#[test]
fn status_bar_on_empty_canvas_is_noop() {
    let b = Buffer::empty();
    let mut t = Terminal::with_size(4, 0);
    StatusBar { buffer: &b }.paint(&mut t);
    assert_eq!(t.height(), 0);
}

#[test]
fn text_is_laid_out_by_lines_and_clipped() {
    let b = Buffer::from_file_text(String::from("f"), "abcd\n\nxy\nhidden");
    let mut t = Terminal::with_size(3, 3);
    t.set(2, 1, red('k'));
    paint_text(&b, Color::Green, Color::Yellow, &mut t);
    let rows: Vec<String> = (0..3)
        .map(|y| (0..3).map(|x| t.get(x, y).unwrap().content).collect())
        .collect();
    assert_eq!(rows, vec!["abc", "  k", "xy "]);
    assert_eq!(
        t.get(0, 0),
        Some(&Cell { background: Color::Green, foreground: Color::Yellow, content: 'a' })
    );
    assert_eq!(t.get(2, 2), Some(&blank_cell()));
}

#[test]
fn status_bar_render_paints_only_bottom_row() {
    let mut b = Buffer::from_file_text(String::from("f"), "ab\ncd");
    for _ in 0..4 {
        b.handle_movement(Movement::Right);
    }
    let mut t = Terminal::with_size(10, 3);
    t.set(3, 1, red('m'));
    StatusBar { buffer: &b }.render(&mut t);
    let row: String = (0..10).map(|x| t.get(x, 2).unwrap().content).collect();
    assert_eq!(row, "(1, 1)    ");
    for x in 0..10 {
        assert_eq!(t.get(x, 2).unwrap().background, Color::White);
        assert_eq!(t.get(x, 2).unwrap().foreground, Color::Black);
    }
    assert_eq!(t.get(3, 1), Some(&red('m')));
    assert_eq!(t.get(0, 0), Some(&blank_cell()));
}
