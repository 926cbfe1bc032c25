use slime::editor::SearchDir;
use slime::{Document, Position};

fn document(lines: &[&str]) -> Document {
    let mut text = String::new();
    for line in lines {
        text.push_str(line);
        text.push('\n');
    }
    Document::open("test.txt", &text)
}

fn lines(doc: &Document) -> Vec<String> {
    (0..doc.rows_size()).map(|i| doc.row(i).unwrap().string().to_string()).collect()
}

fn at(x: usize, y: usize) -> Position<usize> {
    Position { x, y }
}

#[test]
fn open_splits_the_text_into_lines() {
    let doc = Document::open("a.txt", "one\ntwo\r\n\nfour");
    assert_eq!(lines(&doc), vec!["one", "two", "", "four"]);
    assert_eq!(doc.rows_size(), 4);
    assert!(!doc.is_dirty());
    assert!(!doc.is_empty());
    assert_eq!(doc.path, Some(String::from("a.txt")));
    assert_eq!(doc.path(), Some("a.txt"));
}

#[test]
fn open_agrees_with_std_lines() {
    for text in ["", "\n", "a", "a\n", "a\n\n", "\r\n", "a\r", "a\r\r\n", "\ra\nb\r\nc\n\r", "x\n\ny"] {
        let doc = Document::open("a.txt", text);
        let expected: Vec<String> = text.lines().map(String::from).collect();
        assert_eq!(lines(&doc), expected);
    }
}

#[test]
fn default_is_empty_and_clean() {
    let doc = Document::default();
    assert!(doc.is_empty());
    assert_eq!(doc.rows_size(), 0);
    assert!(!doc.is_dirty());
    assert_eq!(doc.path, None);
    assert!(doc.row(0).is_none());
}

#[test]
fn row_answers_for_every_index_below_the_count_and_no_other() {
    let doc = document(&["a", "b", "c"]);
    assert_eq!(doc.row(0).unwrap().string(), "a");
    assert_eq!(doc.row(2).unwrap().string(), "c");
    assert!(doc.row(3).is_none());
    assert!(doc.row(usize::MAX).is_none());
}

#[test]
fn to_text_ends_every_line_with_a_newline() {
    assert_eq!(document(&["hello", "world"]).to_text(), "hello\nworld\n");
    assert_eq!(Document::open("a", "hello\nworld").to_text(), "hello\nworld\n");
    assert_eq!(Document::default().to_text(), "");
    assert_eq!(document(&[""]).to_text(), "\n");
}

#[test]
fn what_is_written_is_read_back() {
    for text in ["", "a\n", "hello\nworld\n", "\n\n", "he\u{301}llo\n\n\tx\n"] {
        let doc = Document::open("a.txt", text);
        assert_eq!(doc.to_text(), text);
        let again = Document::open("a.txt", &doc.to_text());
        assert_eq!(lines(&again), lines(&doc));
    }
}

#[test]
fn mark_saved_clears_dirty() {
    let mut doc = document(&["a"]);
    doc.insert(&at(0, 0), 'x');
    assert!(doc.is_dirty());
    doc.mark_saved();
    assert!(!doc.is_dirty());
    assert_eq!(lines(&doc), vec!["xa"]);
}

#[test]
fn set_path_names_the_file() {
    let mut doc = Document::default();
    doc.set_path(String::from("new.txt"));
    assert_eq!(doc.path(), Some("new.txt"));
    assert!(!doc.is_dirty());
}

#[test]
fn insert_newline_splits_the_line() {
    let mut doc = document(&["hello", "world"]);
    assert!(!doc.is_dirty());
    doc.insert(&at(2, 0), '\n');
    assert_eq!(lines(&doc), vec!["he", "llo", "world"]);
    assert!(doc.is_dirty());
}

#[test]
fn insert_newline_at_line_end_and_start() {
    let mut doc = document(&["hello", "world"]);
    doc.insert(&at(5, 0), '\n');
    assert_eq!(lines(&doc), vec!["hello", "", "world"]);
    doc.insert(&at(99, 0), '\n');
    assert_eq!(lines(&doc), vec!["hello", "", "", "world"]);
    doc.insert(&at(0, 3), '\n');
    assert_eq!(lines(&doc), vec!["hello", "", "", "", "world"]);
}

#[test]
fn insert_newline_one_past_the_end_changes_no_line() {
    let mut doc = document(&["a"]);
    doc.insert(&at(0, 1), '\n');
    assert_eq!(lines(&doc), vec!["a"]);
    assert!(doc.is_dirty());
}

#[test]
fn insert_character_into_a_line() {
    let mut doc = document(&["he\u{301}llo", "world"]);
    doc.insert(&at(2, 0), 'X');
    assert_eq!(lines(&doc), vec!["he\u{301}Xllo", "world"]);
    doc.insert(&at(99, 1), '!');
    assert_eq!(lines(&doc), vec!["he\u{301}Xllo", "world!"]);
    assert!(doc.is_dirty());
}

#[test]
fn insert_one_past_the_end_appends_a_line() {
    let mut doc = document(&["a"]);
    doc.insert(&at(7, 1), 'b');
    assert_eq!(lines(&doc), vec!["a", "b"]);
    assert!(doc.is_dirty());
    let mut empty = Document::default();
    empty.insert(&at(0, 0), 'x');
    assert_eq!(lines(&empty), vec!["x"]);
}

#[test]
fn insert_further_out_is_declined() {
    let mut doc = document(&["a"]);
    doc.insert(&at(0, 2), 'b');
    doc.insert(&at(0, 3), '\n');
    assert_eq!(lines(&doc), vec!["a"]);
    assert!(!doc.is_dirty());
}

#[test]
fn insert_str_puts_the_run_in_as_it_is() {
    let mut doc = document(&["hello", "world"]);
    doc.insert_str(&at(2, 0), "--");
    assert_eq!(lines(&doc), vec!["he--llo", "world"]);
    assert!(doc.is_dirty());
    doc.insert_str(&at(0, 2), "new");
    assert_eq!(lines(&doc), vec!["he--llo", "world", "new"]);
    doc.insert_str(&at(99, 1), "!");
    assert_eq!(lines(&doc), vec!["he--llo", "world!", "new"]);
}

#[test]
fn insert_str_further_out_is_declined() {
    let mut doc = document(&["a"]);
    doc.insert_str(&at(0, 2), "b");
    assert_eq!(lines(&doc), vec!["a"]);
    assert!(!doc.is_dirty());
}

#[test]
fn delete_at_line_end_joins_the_next_line() {
    let mut doc = document(&["a", "b"]);
    assert_eq!(doc.rows_size(), 2);
    doc.delete(&at(1, 0));
    assert_eq!(lines(&doc), vec!["ab"]);
    assert_eq!(doc.rows_size(), 1);
    assert!(doc.is_dirty());
}

#[test]
fn delete_at_line_end_joins_exactly_the_next_line() {
    let mut doc = document(&["one", "two\u{301}", "three", "four"]);
    doc.delete(&at(3, 1));
    assert_eq!(lines(&doc), vec!["one", "two\u{301}three", "four"]);
    assert_eq!(doc.row(1).unwrap().size(), 8);
    let mut doc = document(&["", ""]);
    doc.delete(&at(0, 0));
    assert_eq!(lines(&doc), vec![""]);
}

#[test]
fn delete_inside_a_line_removes_one_cluster() {
    let mut doc = document(&["he\u{301}llo", "world"]);
    doc.delete(&at(1, 0));
    assert_eq!(lines(&doc), vec!["hllo", "world"]);
    doc.delete(&at(4, 1));
    assert_eq!(lines(&doc), vec!["hllo", "worl"]);
}

#[test]
fn delete_at_the_end_of_the_last_line_changes_no_line() {
    let mut doc = document(&["a", "b"]);
    doc.delete(&at(1, 1));
    doc.delete(&at(9, 1));
    doc.delete(&at(9, 0));
    assert_eq!(lines(&doc), vec!["a", "b"]);
}

#[test]
fn delete_on_no_line_is_declined() {
    let mut doc = document(&["a", "b"]);
    doc.delete(&at(0, 2));
    doc.delete(&at(0, usize::MAX));
    assert_eq!(lines(&doc), vec!["a", "b"]);
    assert!(!doc.is_dirty());
    let mut empty = Document::default();
    empty.delete(&at(0, 0));
    assert!(empty.is_empty());
    assert!(!empty.is_dirty());
}

#[test]
fn type_then_delete_restores_the_lines() {
    for x in 0..=5 {
        let mut doc = document(&["he\u{301}llo", "world"]);
        doc.insert(&at(x, 0), 'Q');
        doc.delete(&at(x, 0));
        assert_eq!(lines(&doc), vec!["he\u{301}llo", "world"]);
    }
}

#[test]
fn split_then_merge_restores_the_lines() {
    for k in 0..=5 {
        let mut doc = document(&["he\u{301}llo", "world"]);
        doc.insert(&at(k, 0), '\n');
        assert_eq!(doc.rows_size(), 3);
        let end = doc.row(0).unwrap().size();
        assert_eq!(end, k);
        doc.delete(&at(end, 0));
        assert_eq!(lines(&doc), vec!["he\u{301}llo", "world"]);
    }
}

#[test]
fn find_forward_then_backward() {
    let doc = document(&["hello", "world"]);
    assert_eq!(doc.find("lo", &at(0, 0), SearchDir::Forward), Some(at(3, 0)));
    assert_eq!(doc.find("he", &at(3, 0), SearchDir::Backward), Some(at(0, 0)));
}

#[test]
fn find_forward_goes_on_at_the_start_of_later_lines() {
    let doc = document(&["hello", "world", "hollow"]);
    assert_eq!(doc.find("o", &at(0, 0), SearchDir::Forward), Some(at(4, 0)));
    assert_eq!(doc.find("o", &at(5, 0), SearchDir::Forward), Some(at(1, 1)));
    assert_eq!(doc.find("o", &at(2, 1), SearchDir::Forward), Some(at(1, 2)));
    assert_eq!(doc.find("o", &at(2, 2), SearchDir::Forward), Some(at(4, 2)));
    assert_eq!(doc.find("h", &at(1, 0), SearchDir::Forward), Some(at(0, 2)));
    assert_eq!(doc.find("w", &at(99, 0), SearchDir::Forward), Some(at(0, 1)));
}

#[test]
fn find_forward_never_wraps() {
    let doc = document(&["hello", "world"]);
    assert_eq!(doc.find("h", &at(1, 0), SearchDir::Forward), None);
    assert_eq!(doc.find("hello", &at(0, 1), SearchDir::Forward), None);
    assert_eq!(doc.find("zzz", &at(0, 0), SearchDir::Forward), None);
}

#[test]
fn find_backward_goes_on_at_the_end_of_earlier_lines() {
    let doc = document(&["hello", "world", "hollow"]);
    assert_eq!(doc.find("o", &at(6, 2), SearchDir::Backward), Some(at(4, 2)));
    assert_eq!(doc.find("o", &at(4, 2), SearchDir::Backward), Some(at(1, 2)));
    assert_eq!(doc.find("o", &at(1, 2), SearchDir::Backward), Some(at(1, 1)));
    assert_eq!(doc.find("o", &at(1, 1), SearchDir::Backward), Some(at(4, 0)));
    assert_eq!(doc.find("d", &at(0, 2), SearchDir::Backward), Some(at(4, 1)));
    assert_eq!(doc.find("hello", &at(0, 1), SearchDir::Backward), Some(at(0, 0)));
}

#[test]
fn find_backward_never_wraps() {
    let doc = document(&["hello", "world"]);
    assert_eq!(doc.find("w", &at(5, 0), SearchDir::Backward), None);
    assert_eq!(doc.find("o", &at(4, 0), SearchDir::Backward), None);
    assert_eq!(doc.find("h", &at(0, 0), SearchDir::Backward), None);
}

#[test]
fn find_from_no_line_finds_nothing() {
    let doc = document(&["hello", "world"]);
    assert_eq!(doc.find("o", &at(0, 2), SearchDir::Forward), None);
    assert_eq!(doc.find("o", &at(0, 2), SearchDir::Backward), None);
    assert_eq!(doc.find("o", &at(0, 3), SearchDir::Backward), None);
    assert_eq!(doc.find("", &at(0, 0), SearchDir::Forward), None);
    assert_eq!(Document::default().find("o", &at(0, 0), SearchDir::Forward), None);
}
