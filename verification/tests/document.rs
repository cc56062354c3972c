use hecto::{Document, Position};

fn rows_of(document: &Document) -> Vec<String> {
    (0..document.len()).map(|y| document.row(y).unwrap().contents()).collect()
}

fn document_of(lines: &[&str]) -> Document {
    let mut text = String::new();
    for line in lines {
        text.push_str(line);
        text.push('\n');
    }
    Document::open("test.txt", &text)
}

fn at(x: usize, y: usize) -> Position {
    Position { x, y }
}

#[test]
fn a_default_document_is_empty_unnamed_and_clean() {
    let document = Document::default();
    assert!(document.is_empty());
    assert_eq!(document.len(), 0);
    assert!(!document.is_dirty());
    assert_eq!(document.filename(), &None);
    assert!(document.row(0).is_none());
}

#[test]
fn open_makes_a_row_of_each_line() {
    let document = Document::open("notes.txt", "hello\nworld\n");
    assert_eq!(rows_of(&document), vec!["hello", "world"]);
    assert_eq!(document.filename(), &Some(String::from("notes.txt")));
    assert!(!document.is_dirty());
    assert!(!document.is_empty());
}

#[test]
fn open_takes_a_last_line_without_a_line_feed() {
    assert_eq!(rows_of(&Document::open("f", "hello\nworld")), vec!["hello", "world"]);
    assert_eq!(rows_of(&Document::open("f", "x")), vec!["x"]);
}

#[test]
fn open_of_an_empty_file_has_no_rows() {
    let document = Document::open("f", "");
    assert!(document.is_empty());
    assert_eq!(document.len(), 0);
}

#[test]
fn open_keeps_empty_lines() {
    assert_eq!(rows_of(&Document::open("f", "a\n\nb\n")), vec!["a", "", "b"]);
    assert_eq!(rows_of(&Document::open("f", "\n")), vec![""]);
    assert_eq!(rows_of(&Document::open("f", "\n\n")), vec!["", ""]);
}

#[test]
fn open_drops_the_carriage_return_of_a_line_ending() {
    assert_eq!(rows_of(&Document::open("f", "a\r\nb\r\n")), vec!["a", "b"]);
    assert_eq!(rows_of(&Document::open("f", "\r\n")), vec![""]);
    assert_eq!(rows_of(&Document::open("f", "a\r\r\nb")), vec!["a\r", "b"]);
}

#[test]
fn open_keeps_a_carriage_return_that_ends_no_line() {
    assert_eq!(rows_of(&Document::open("f", "a\rb\n")), vec!["a\rb"]);
    assert_eq!(rows_of(&Document::open("f", "a\r")), vec!["a\r"]);
}

#[test]
fn open_reads_lines_as_std_does() {
    let texts =
        ["", "a", "a\n", "a\nb", "\n", "\r\n", "a\r\nb\r", "\r", "x\n\n\ny", "é\t\n🇷🇺\n"];
    for text in texts {
        let expected: Vec<String> = text.lines().map(String::from).collect();
        assert_eq!(rows_of(&Document::open("f", text)), expected);
    }
}

#[test]
fn text_ends_each_row_with_a_line_feed() {
    assert_eq!(document_of(&["hello", "world"]).text(), "hello\nworld\n");
    assert_eq!(Document::default().text(), "");
    assert_eq!(Document::open("f", "a\r\nb").text(), "a\nb\n");
    assert_eq!(Document::open("f", "\n").text(), "\n");
}

#[test]
fn a_written_document_comes_back_as_it_was() {
    let mut document = Document::default();
    for c in "hello".chars() {
        let x = document.row(0).map_or(0, |row| row.len());
        document.insert(&at(x, 0), c);
    }
    document.insert_newline(&at(5, 0));
    for c in "world".chars() {
        let x = document.row(1).map_or(0, |row| row.len());
        document.insert(&at(x, 1), c);
    }
    assert_eq!(rows_of(&document), vec!["hello", "world"]);
    assert!(document.is_dirty());
    let written = document.text();
    let reopened = Document::open("out.txt", &written);
    assert_eq!(rows_of(&reopened), vec!["hello", "world"]);
    assert!(!reopened.is_dirty());
}

#[test]
fn saved_clears_the_dirty_flag_and_nothing_else() {
    let mut document = document_of(&["a"]);
    document.insert(&at(1, 0), 'b');
    assert!(document.is_dirty());
    document.saved();
    assert!(!document.is_dirty());
    assert_eq!(rows_of(&document), vec!["ab"]);
    assert_eq!(document.filename(), &Some(String::from("test.txt")));
}

#[test]
fn set_filename_names_the_document() {
    let mut document = Document::default();
    document.set_filename(String::from("new.txt"));
    assert_eq!(document.filename(), &Some(String::from("new.txt")));
    assert!(!document.is_dirty());
    assert!(document.is_empty());
}

#[test]
fn row_returns_the_row_or_nothing() {
    let document = document_of(&["a", "bc"]);
    assert_eq!(document.row(0).unwrap().contents(), "a");
    assert_eq!(document.row(1).unwrap().len(), 2);
    assert!(document.row(2).is_none());
    assert!(document.row(usize::MAX).is_none());
}

#[test]
fn insert_below_the_last_row_starts_a_new_row() {
    let mut document = Document::default();
    document.insert(&at(0, 0), 'a');
    assert_eq!(rows_of(&document), vec!["a"]);
    document.insert(&at(0, 1), 'b');
    assert_eq!(rows_of(&document), vec!["a", "b"]);
    document.insert(&at(7, 2), 'c');
    assert_eq!(rows_of(&document), vec!["a", "b", "c"]);
    assert!(document.is_dirty());
}

#[test]
fn insert_at_the_end_of_a_row_appends() {
    let mut document = document_of(&["ab", "cd"]);
    document.insert(&at(2, 0), 'x');
    document.insert(&at(2, 1), 'y');
    assert_eq!(rows_of(&document), vec!["abx", "cdy"]);
}

#[test]
fn insert_inside_a_row_goes_before_the_cluster() {
    let mut document = document_of(&["ab", "cd"]);
    document.insert(&at(0, 0), 'x');
    document.insert(&at(1, 1), 'y');
    assert_eq!(rows_of(&document), vec!["xab", "cyd"]);
    assert!(document.is_dirty());
}

#[test]
fn insert_out_of_bounds_changes_no_row() {
    let mut document = document_of(&["ab"]);
    document.insert(&at(5, 0), 'x');
    assert_eq!(rows_of(&document), vec!["ab"]);
    document.insert(&at(0, 2), 'x');
    assert_eq!(rows_of(&document), vec!["ab"]);
    document.insert(&at(0, usize::MAX), 'x');
    assert_eq!(rows_of(&document), vec!["ab"]);
    assert!(document.is_dirty());
}

#[test]
fn insert_at_the_width_of_a_row_with_a_tab_appends() {
    let mut document = document_of(&["a\t"]);
    document.insert(&at(5, 0), 'x');
    assert_eq!(rows_of(&document), vec!["a\tx"]);
}

#[test]
fn insert_then_delete_backward_restores_the_rows() {
    for x in 0..=3 {
        let mut document = document_of(&["one", "abc", "two"]);
        document.insert(&at(x, 1), 'x');
        assert_eq!(document.row(1).unwrap().len(), 4);
        document.del_char_backward(&at(x + 1, 1));
        assert_eq!(rows_of(&document), vec!["one", "abc", "two"]);
    }
}

#[test]
fn insert_then_delete_at_the_same_place_keeps_the_width() {
    for x in 1..=3 {
        let mut document = document_of(&["abc"]);
        document.insert(&at(x, 0), 'x');
        document.del_char_backward(&at(x, 0));
        assert_eq!(document.row(0).unwrap().len(), 3);
        assert_eq!(document.len(), 1);
    }
}

#[test]
fn insert_newline_cuts_the_row_at_the_column() {
    let mut document = document_of(&["hello", "world"]);
    document.insert_newline(&at(2, 0));
    assert_eq!(rows_of(&document), vec!["he", "llo", "world"]);
    assert!(document.is_dirty());
}

#[test]
fn insert_newline_at_the_ends_of_a_row_adds_an_empty_row() {
    let mut document = document_of(&["hello", "world"]);
    document.insert_newline(&at(5, 0));
    assert_eq!(rows_of(&document), vec!["hello", "", "world"]);
    document.insert_newline(&at(0, 2));
    assert_eq!(rows_of(&document), vec!["hello", "", "", "world"]);
}

#[test]
fn insert_newline_past_the_end_of_a_row_adds_an_empty_row() {
    let mut document = document_of(&["hello"]);
    document.insert_newline(&at(50, 0));
    assert_eq!(rows_of(&document), vec!["hello", ""]);
}

#[test]
fn insert_newline_below_the_last_row_adds_two_empty_rows() {
    let mut document = document_of(&["a"]);
    document.insert_newline(&at(0, 1));
    assert_eq!(rows_of(&document), vec!["a", "", ""]);
    let mut empty = Document::default();
    empty.insert_newline(&at(0, 0));
    assert_eq!(rows_of(&empty), vec!["", ""]);
    assert!(empty.is_dirty());
}

#[test]
fn insert_newline_then_delete_backward_restores_the_row() {
    for x in 0..=7 {
        let mut document = document_of(&["one", "he\tlo", "two"]);
        document.insert_newline(&at(x, 1));
        assert_eq!(document.len(), 4);
        document.del_char_backward(&at(0, 2));
        assert_eq!(rows_of(&document), vec!["one", "he\tlo", "two"]);
    }
}

#[test]
fn delete_backward_takes_the_cluster_before_the_cursor() {
    let mut document = document_of(&["abc", "de\u{301}f"]);
    document.del_char_backward(&at(2, 0));
    assert_eq!(rows_of(&document), vec!["ac", "de\u{301}f"]);
    document.del_char_backward(&at(2, 1));
    assert_eq!(rows_of(&document), vec!["ac", "df"]);
    assert!(document.is_dirty());
}

#[test]
fn delete_backward_at_column_zero_joins_the_row_to_the_one_above() {
    let mut document = document_of(&["ab", "cd", "ef"]);
    document.del_char_backward(&at(0, 1));
    assert_eq!(rows_of(&document), vec!["abcd", "ef"]);
    document.del_char_backward(&at(0, 1));
    assert_eq!(rows_of(&document), vec!["abcdef"]);
}

#[test]
fn delete_backward_at_the_start_of_the_document_changes_no_row() {
    let mut document = document_of(&["ab", "cd"]);
    document.del_char_backward(&at(0, 0));
    assert_eq!(rows_of(&document), vec!["ab", "cd"]);
    let mut empty = Document::default();
    empty.del_char_backward(&at(0, 0));
    assert!(empty.is_empty());
}

#[test]
fn delete_backward_off_the_rows_changes_no_row() {
    let mut document = document_of(&["ab", "cd"]);
    document.del_char_backward(&at(0, 2));
    document.del_char_backward(&at(1, 2));
    document.del_char_backward(&at(0, 9));
    document.del_char_backward(&at(7, 0));
    assert_eq!(rows_of(&document), vec!["ab", "cd"]);
}

#[test]
fn delete_forward_takes_the_cluster_under_the_cursor() {
    let mut document = document_of(&["abc", "e\u{301}f"]);
    document.del_char_forward(&at(1, 0));
    assert_eq!(rows_of(&document), vec!["ac", "e\u{301}f"]);
    document.del_char_forward(&at(0, 1));
    assert_eq!(rows_of(&document), vec!["ac", "f"]);
    assert!(document.is_dirty());
}

#[test]
fn delete_forward_at_the_end_of_a_row_joins_the_row_below() {
    let mut document = document_of(&["ab", "cd", "ef"]);
    document.del_char_forward(&at(2, 0));
    assert_eq!(rows_of(&document), vec!["abcd", "ef"]);
    document.del_char_forward(&at(4, 0));
    assert_eq!(rows_of(&document), vec!["abcdef"]);
}

#[test]
fn delete_forward_at_the_end_of_the_document_changes_no_row() {
    let mut document = document_of(&["ab", "cd"]);
    document.del_char_forward(&at(2, 1));
    assert_eq!(rows_of(&document), vec!["ab", "cd"]);
    let mut empty = Document::default();
    empty.del_char_forward(&at(0, 0));
    assert!(empty.is_empty());
}

#[test]
fn delete_forward_off_the_rows_changes_no_row() {
    let mut document = document_of(&["ab", "cd"]);
    document.del_char_forward(&at(0, 2));
    document.del_char_forward(&at(3, 2));
    document.del_char_forward(&at(5, 1));
    assert_eq!(rows_of(&document), vec!["ab", "cd"]);
}

#[test]
fn every_edit_marks_the_document_dirty() {
    let mut document = document_of(&["ab"]);
    document.del_char_backward(&at(0, 0));
    assert!(document.is_dirty());
    document.saved();
    document.del_char_forward(&at(2, 0));
    assert!(document.is_dirty());
    document.saved();
    document.insert(&at(9, 9), 'x');
    assert!(document.is_dirty());
    document.saved();
    document.insert_newline(&at(0, 0));
    assert!(document.is_dirty());
}

#[test]
fn find_returns_the_leftmost_match_of_the_topmost_row() {
    let document = document_of(&["abcabc", "xyzabc"]);
    assert_eq!(document.find("abc"), Some(at(0, 0)));
    assert_eq!(document.find("xyz"), Some(at(0, 1)));
    assert_eq!(document.find("zab"), Some(at(2, 1)));
    assert_eq!(document.find("c"), Some(at(2, 0)));
}

#[test]
fn find_returns_none_where_no_row_holds_the_query() {
    let document = document_of(&["abcabc", "xyzabc"]);
    assert_eq!(document.find("abd"), None);
    assert_eq!(document.find("cx"), None);
    assert_eq!(Document::default().find("a"), None);
    assert_eq!(Document::default().find(""), None);
}

#[test]
fn find_gives_the_column_of_the_match() {
    let document = document_of(&["x", "\tabc", "e\u{301}\t\tz"]);
    assert_eq!(document.find("abc"), Some(at(4, 1)));
    assert_eq!(document.find("bc"), Some(at(5, 1)));
    assert_eq!(document.find("z"), Some(at(9, 2)));
    assert_eq!(document.find("\t"), Some(at(0, 1)));
    assert_eq!(document.find("\tz"), Some(at(5, 2)));
}

#[test]
fn find_passes_over_a_row_whose_match_lies_inside_a_cluster() {
    let document = document_of(&["e\u{301}", "x\u{301}y", "\u{301}"]);
    assert_eq!(document.find("\u{301}"), Some(at(0, 2)));
}

#[test]
fn a_document_can_be_made_for_another_tab_width() {
    let mut document = Document::open_with_tab_width("f", "\ta\n", 8);
    assert_eq!(document.tab_width(), 8);
    assert_eq!(document.row(0).unwrap().len(), 9);
    document.insert(&at(9, 0), 'b');
    assert_eq!(rows_of(&document), vec!["\tab"]);
    document.insert(&at(0, 1), '\t');
    assert_eq!(document.row(1).unwrap().len(), 8);
    document.insert_newline(&at(1, 0));
    assert_eq!(rows_of(&document), vec!["\t", "ab", "\t"]);
    assert_eq!(document.row(0).unwrap().len(), 8);
    assert_eq!(document.row(1).unwrap().tab_width(), 8);
    let empty = Document::with_tab_width(2);
    assert!(empty.is_empty());
    assert_eq!(empty.tab_width(), 2);
    assert_eq!(Document::default().tab_width(), 4);
    assert_eq!(Document::open("f", "x").tab_width(), 4);
}

#[test]
fn insert_at_a_column_goes_in_front_of_the_cluster_that_starts_there() {
    let mut document = document_of(&["\t\t"]);
    document.insert(&at(4, 0), 'x');
    assert_eq!(rows_of(&document), vec!["\tx\t"]);
    document.insert(&at(0, 0), 'y');
    assert_eq!(rows_of(&document), vec!["y\tx\t"]);
    document.insert(&at(6, 0), 'z');
    assert_eq!(rows_of(&document), vec!["y\txz\t"]);
    document.insert(&at(11, 0), '!');
    assert_eq!(rows_of(&document), vec!["y\txz\t!"]);
}

#[test]
fn insert_at_a_column_inside_a_tab_goes_behind_the_tab() {
    for x in 1..=3 {
        let mut document = document_of(&["\tab"]);
        document.insert(&at(x, 0), 'x');
        assert_eq!(rows_of(&document), vec!["\txab"]);
    }
}

#[test]
fn delete_backward_behind_a_tab_takes_the_tab() {
    let mut document = document_of(&["a\tb"]);
    document.del_char_backward(&at(5, 0));
    assert_eq!(rows_of(&document), vec!["ab"]);
    let mut document = document_of(&["a\tb"]);
    document.del_char_backward(&at(6, 0));
    assert_eq!(rows_of(&document), vec!["a\t"]);
    let mut document = document_of(&["a\tb"]);
    document.del_char_backward(&at(1, 0));
    assert_eq!(rows_of(&document), vec!["\tb"]);
}

#[test]
fn delete_backward_inside_a_tab_takes_the_tab() {
    for x in 2..=4 {
        let mut document = document_of(&["a\tb"]);
        document.del_char_backward(&at(x, 0));
        assert_eq!(rows_of(&document), vec!["ab"]);
    }
}

#[test]
fn delete_forward_at_a_column_takes_the_cluster_that_starts_there() {
    let mut document = document_of(&["a\tb"]);
    document.del_char_forward(&at(1, 0));
    assert_eq!(rows_of(&document), vec!["ab"]);
    let mut document = document_of(&["a\tb"]);
    document.del_char_forward(&at(5, 0));
    assert_eq!(rows_of(&document), vec!["a\t"]);
    let mut document = document_of(&["a\tb"]);
    document.del_char_forward(&at(3, 0));
    assert_eq!(rows_of(&document), vec!["a\t"]);
}

#[test]
fn insert_newline_at_a_column_cuts_the_row_there() {
    let mut document = document_of(&["\t\tab"]);
    document.insert_newline(&at(4, 0));
    assert_eq!(rows_of(&document), vec!["\t", "\tab"]);
    document.insert_newline(&at(5, 1));
    assert_eq!(rows_of(&document), vec!["\t", "\ta", "b"]);
    document.insert_newline(&at(2, 0));
    assert_eq!(rows_of(&document), vec!["\t", "", "\ta", "b"]);
}

#[test]
fn insert_then_delete_backward_restores_a_row_with_tabs() {
    for (x, c, behind) in [(0, 'x', 1), (1, 'x', 2), (5, 'x', 6), (6, 'x', 7), (1, '\t', 5)] {
        let mut document = document_of(&["a\tb"]);
        document.insert(&at(x, 0), c);
        document.del_char_backward(&at(behind, 0));
        assert_eq!(rows_of(&document), vec!["a\tb"]);
    }
}

#[test]
fn snap_and_column_before_give_the_columns_of_cluster_boundaries() {
    let document = document_of(&["a\tb"]);
    assert_eq!(document.snap(&at(0, 0)), 0);
    assert_eq!(document.snap(&at(1, 0)), 1);
    assert_eq!(document.snap(&at(2, 0)), 5);
    assert_eq!(document.snap(&at(5, 0)), 5);
    assert_eq!(document.snap(&at(6, 0)), 6);
    assert_eq!(document.snap(&at(7, 0)), 7);
    assert_eq!(document.snap(&at(3, 1)), 3);
    assert_eq!(document.column_before(&at(6, 0)), 5);
    assert_eq!(document.column_before(&at(5, 0)), 1);
    assert_eq!(document.column_before(&at(3, 0)), 1);
    assert_eq!(document.column_before(&at(1, 0)), 0);
    assert_eq!(document.column_before(&at(0, 0)), 0);
    assert_eq!(document.column_before(&at(9, 0)), 8);
    assert_eq!(document.column_before(&at(3, 1)), 2);
}
