use hecto::cursor::{move_cursor, scroll, step_cursor, Around};
use hecto::editor::Key;
use hecto::terminal::cursor_cell;
use hecto::{Document, Position};

fn at(x: usize, y: usize) -> Position {
    Position { x, y }
}

fn around(rows: usize, width: usize, above: usize, below: usize) -> Around {
    Around { rows, width, above, below }
}

fn document_of(lines: &[&str]) -> Document {
    let mut text = String::new();
    for line in lines {
        text.push_str(line);
        text.push('\n');
    }
    Document::open("test.txt", &text)
}

#[test]
fn left_steps_back_in_the_row() {
    let a = around(3, 5, 4, 6);
    assert_eq!(step_cursor(Key::Left, at(3, 1), a, 10), at(2, 1));
    assert_eq!(step_cursor(Key::Ctrl('b'), at(1, 1), a, 10), at(0, 1));
}

#[test]
fn left_at_column_zero_goes_to_the_end_of_the_row_above() {
    let a = around(3, 5, 4, 6);
    assert_eq!(step_cursor(Key::Left, at(0, 1), a, 10), at(4, 0));
    assert_eq!(step_cursor(Key::Ctrl('b'), at(0, 2), a, 10), at(4, 1));
}

#[test]
fn left_at_the_start_of_the_document_stays() {
    assert_eq!(step_cursor(Key::Left, at(0, 0), around(3, 5, 0, 6), 10), at(0, 0));
    assert_eq!(step_cursor(Key::Left, at(0, 0), around(0, 0, 0, 0), 10), at(0, 0));
}

#[test]
fn right_steps_on_in_the_row() {
    let a = around(3, 5, 4, 6);
    assert_eq!(step_cursor(Key::Right, at(0, 1), a, 10), at(1, 1));
    assert_eq!(step_cursor(Key::Ctrl('f'), at(4, 1), a, 10), at(5, 1));
}

#[test]
fn right_at_the_end_of_a_row_goes_to_the_start_of_the_row_below() {
    let a = around(3, 5, 4, 6);
    assert_eq!(step_cursor(Key::Right, at(5, 1), a, 10), at(0, 2));
    assert_eq!(step_cursor(Key::Ctrl('f'), at(5, 0), a, 10), at(0, 1));
    assert_eq!(step_cursor(Key::Right, at(9, 1), a, 10), at(0, 2));
}

#[test]
fn right_at_the_end_of_the_last_row_stays() {
    assert_eq!(step_cursor(Key::Right, at(5, 2), around(3, 5, 4, 0), 10), at(5, 2));
    assert_eq!(step_cursor(Key::Right, at(0, 0), around(0, 0, 0, 0), 10), at(0, 0));
    assert_eq!(step_cursor(Key::Right, at(0, 3), around(3, 0, 5, 0), 10), at(0, 3));
}

#[test]
fn up_goes_a_row_up_and_keeps_the_column_in_the_row() {
    let a = around(3, 5, 2, 6);
    assert_eq!(step_cursor(Key::Up, at(1, 1), a, 10), at(1, 0));
    assert_eq!(step_cursor(Key::Up, at(2, 1), a, 10), at(2, 0));
    assert_eq!(step_cursor(Key::Ctrl('p'), at(5, 1), a, 10), at(2, 0));
}

#[test]
fn up_in_the_first_row_stays_and_keeps_the_column_in_the_row() {
    let a = around(3, 5, 0, 6);
    assert_eq!(step_cursor(Key::Up, at(3, 0), a, 10), at(3, 0));
    assert_eq!(step_cursor(Key::Up, at(9, 0), a, 10), at(5, 0));
}

#[test]
fn down_goes_a_row_down_and_keeps_the_column_in_the_row() {
    let a = around(3, 5, 2, 3);
    assert_eq!(step_cursor(Key::Down, at(1, 1), a, 10), at(1, 2));
    assert_eq!(step_cursor(Key::Ctrl('n'), at(5, 1), a, 10), at(3, 2));
}

#[test]
fn down_stops_at_the_line_below_the_last_row() {
    assert_eq!(step_cursor(Key::Down, at(4, 2), around(3, 5, 2, 0), 10), at(0, 3));
    assert_eq!(step_cursor(Key::Down, at(0, 3), around(3, 0, 5, 0), 10), at(0, 3));
    assert_eq!(step_cursor(Key::Down, at(0, 0), around(0, 0, 0, 0), 10), at(0, 0));
}

#[test]
fn home_and_end_go_to_the_ends_of_the_row() {
    let a = around(3, 5, 2, 3);
    assert_eq!(step_cursor(Key::Home, at(3, 1), a, 10), at(0, 1));
    assert_eq!(step_cursor(Key::Ctrl('a'), at(3, 1), a, 10), at(0, 1));
    assert_eq!(step_cursor(Key::End, at(3, 1), a, 10), at(5, 1));
    assert_eq!(step_cursor(Key::Ctrl('e'), at(0, 1), a, 10), at(5, 1));
    assert_eq!(step_cursor(Key::End, at(2, 3), around(3, 0, 3, 0), 10), at(0, 3));
}

#[test]
fn page_up_goes_a_page_up_or_to_the_first_row() {
    let a = around(100, 5, 5, 5);
    assert_eq!(step_cursor(Key::PageUp, at(3, 50), a, 22), at(3, 28));
    assert_eq!(step_cursor(Key::PageUp, at(3, 22), a, 22), at(3, 0));
    assert_eq!(step_cursor(Key::PageUp, at(3, 10), a, 22), at(3, 0));
    assert_eq!(step_cursor(Key::PageUp, at(3, 10), a, 0), at(3, 10));
}

#[test]
fn page_down_goes_a_page_down_or_to_the_line_below_the_last_row() {
    let a = around(100, 5, 5, 5);
    assert_eq!(step_cursor(Key::PageDown, at(3, 50), a, 22), at(3, 72));
    assert_eq!(step_cursor(Key::PageDown, at(3, 77), a, 22), at(3, 99));
    assert_eq!(step_cursor(Key::PageDown, at(3, 78), a, 22), at(3, 100));
    assert_eq!(step_cursor(Key::PageDown, at(3, 90), a, 22), at(3, 100));
    assert_eq!(step_cursor(Key::PageDown, at(3, usize::MAX), a, 22), at(3, 100));
    assert_eq!(step_cursor(Key::PageDown, at(0, 0), around(0, 0, 0, 0), 22), at(0, 0));
}

#[test]
fn other_keys_leave_the_cursor() {
    let a = around(3, 5, 2, 3);
    for key in [
        Key::Char('a'),
        Key::Char('\n'),
        Key::Ctrl('q'),
        Key::Ctrl('x'),
        Key::Backspace,
        Key::Delete,
        Key::Esc,
        Key::Other,
    ] {
        assert_eq!(step_cursor(key, at(2, 1), a, 10), at(2, 1));
    }
}

#[test]
fn move_cursor_reads_the_widths_from_the_document() {
    let document = document_of(&["hello", "a\tb", ""]);
    assert_eq!(move_cursor(Key::Left, at(0, 1), &document, 10), at(5, 0));
    assert_eq!(move_cursor(Key::Left, at(0, 2), &document, 10), at(6, 1));
    assert_eq!(move_cursor(Key::End, at(0, 1), &document, 10), at(6, 1));
    assert_eq!(move_cursor(Key::Right, at(6, 1), &document, 10), at(0, 2));
    assert_eq!(move_cursor(Key::Right, at(0, 2), &document, 10), at(0, 2));
    assert_eq!(move_cursor(Key::Down, at(5, 0), &document, 10), at(5, 1));
    assert_eq!(move_cursor(Key::Down, at(5, 1), &document, 10), at(0, 2));
    assert_eq!(move_cursor(Key::Down, at(0, 2), &document, 10), at(0, 3));
    assert_eq!(move_cursor(Key::Down, at(0, 3), &document, 10), at(0, 3));
    assert_eq!(move_cursor(Key::Up, at(6, 1), &document, 10), at(5, 0));
    assert_eq!(move_cursor(Key::Up, at(0, 3), &document, 10), at(0, 2));
    assert_eq!(move_cursor(Key::PageDown, at(1, 0), &document, 10), at(1, 3));
    assert_eq!(move_cursor(Key::PageUp, at(1, 3), &document, 2), at(1, 1));
}

#[test]
fn move_cursor_in_an_empty_document_stays_at_the_start() {
    let document = Document::default();
    for key in [
        Key::Left,
        Key::Right,
        Key::Up,
        Key::Down,
        Key::Home,
        Key::End,
        Key::PageUp,
        Key::PageDown,
    ] {
        assert_eq!(move_cursor(key, at(0, 0), &document, 22), at(0, 0));
    }
}

#[test]
fn move_cursor_at_the_largest_row_number_does_not_overflow() {
    let document = document_of(&["a"]);
    assert_eq!(move_cursor(Key::Down, at(0, usize::MAX), &document, 5), at(0, usize::MAX));
    assert_eq!(move_cursor(Key::Right, at(0, usize::MAX), &document, 5), at(0, usize::MAX));
    assert_eq!(move_cursor(Key::PageDown, at(0, usize::MAX), &document, 5), at(0, 1));
}

#[test]
fn scroll_leaves_the_viewport_where_the_cursor_is_in_view() {
    assert_eq!(scroll(&at(0, 0), 80, 22, &at(0, 0)), at(0, 0));
    assert_eq!(scroll(&at(79, 21), 80, 22, &at(0, 0)), at(0, 0));
    assert_eq!(scroll(&at(15, 30), 80, 22, &at(10, 20)), at(10, 20));
    assert_eq!(scroll(&at(10, 20), 80, 22, &at(10, 20)), at(10, 20));
}

#[test]
fn scroll_moves_down_by_as_many_lines_as_the_cursor_is_below() {
    for by in 1..5 {
        let offset = at(0, 7);
        let cursor = at(0, 7 + 22 - 1 + by);
        assert_eq!(scroll(&cursor, 80, 22, &offset), at(0, 7 + by));
    }
    assert_eq!(scroll(&at(0, 22), 80, 22, &at(0, 0)), at(0, 1));
}

#[test]
fn scroll_moves_right_by_as_many_columns_as_the_cursor_is_past_the_edge() {
    for by in 1..5 {
        let offset = at(3, 0);
        let cursor = at(3 + 80 - 1 + by, 0);
        assert_eq!(scroll(&cursor, 80, 22, &offset), at(3 + by, 0));
    }
}

#[test]
fn scroll_moves_up_to_a_cursor_above_the_viewport() {
    assert_eq!(scroll(&at(0, 3), 80, 22, &at(0, 10)), at(0, 3));
    assert_eq!(scroll(&at(0, 0), 80, 22, &at(0, 1)), at(0, 0));
    assert_eq!(scroll(&at(2, 5), 80, 22, &at(9, 5)), at(2, 5));
    assert_eq!(scroll(&at(2, 3), 80, 22, &at(9, 10)), at(2, 3));
}

#[test]
fn scroll_does_not_overflow_at_the_largest_numbers() {
    assert_eq!(
        scroll(&at(usize::MAX, usize::MAX), 80, 22, &at(0, 0)),
        at(usize::MAX - 79, usize::MAX - 21)
    );
    assert_eq!(
        scroll(&at(usize::MAX, usize::MAX), 80, 22, &at(usize::MAX, usize::MAX)),
        at(usize::MAX - 79, usize::MAX - 21)
    );
    assert_eq!(scroll(&at(usize::MAX, 0), 0, 0, &at(0, 0)), at(usize::MAX, 1));
}

#[test]
fn the_terminal_counts_cells_from_one() {
    assert_eq!(cursor_cell(&at(0, 0)), (1, 1));
    assert_eq!(cursor_cell(&at(79, 23)), (80, 24));
    assert_eq!(cursor_cell(&at(65534, 65535)), (65535, 0));
    assert_eq!(cursor_cell(&at(65536, usize::MAX)), (1, 65535));
}
