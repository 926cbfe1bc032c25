use slime::editor::SearchDir;
use slime::Row;

#[test]
fn size_counts_clusters_not_bytes_or_scalars() {
    let row = Row::from("e\u{301}a\u{310}");
    assert_eq!(row.string().len(), 6);
    assert_eq!(row.string().chars().count(), 4);
    assert_eq!(row.size(), 2);
}

#[test]
fn size_of_flags_and_line_break_pairs() {
    let row = Row::from("a\r\nb\u{1F1F7}\u{1F1FA}\u{1F1F8}\u{1F1F9}");
    assert_eq!(row.size(), 5);
    assert_eq!(Row::from("").size(), 0);
    assert_eq!(Row::default().size(), 0);
    assert_eq!(Row::default().string(), "");
}

#[test]
fn from_string_and_from_slice_agree() {
    let a = Row::from(String::from("he\u{301}llo"));
    let b = Row::from("he\u{301}llo");
    let c = Row::new("he\u{301}llo");
    assert_eq!(a.string(), b.string());
    assert_eq!(a.size(), 5);
    assert_eq!(b.size(), 5);
    assert_eq!(c.size(), 5);
    assert_eq!(a.as_bytes(), "he\u{301}llo".as_bytes());
}

#[test]
fn render_replaces_tabs_and_clamps() {
    let row = Row::from("a\tbe\u{301}c");
    assert_eq!(row.render(0, 100), "a be\u{301}c");
    assert_eq!(row.render(1, 4), " be\u{301}");
    assert_eq!(row.render(3, 4), "e\u{301}");
    assert_eq!(row.render(4, 2), "");
    assert_eq!(row.render(9, 20), "");
    assert_eq!(row.render(0, 0), "");
    assert_eq!(row.render(usize::MAX, usize::MAX), "");
}

#[test]
fn insert_addresses_clusters() {
    let mut row = Row::from("e\u{301}a\u{310}z");
    row.insert(1, 'X');
    assert_eq!(row.string(), "e\u{301}Xa\u{310}z");
    assert_eq!(row.size(), 4);
    row.insert(0, 'Y');
    assert_eq!(row.string(), "Ye\u{301}Xa\u{310}z");
    assert_eq!(row.size(), 5);
}

#[test]
fn insert_at_or_past_the_end_appends() {
    let mut row = Row::from("ab");
    row.insert(2, 'c');
    assert_eq!(row.string(), "abc");
    row.insert(100, 'd');
    assert_eq!(row.string(), "abcd");
    assert_eq!(row.size(), 4);
    let mut empty = Row::default();
    empty.insert(0, 'x');
    assert_eq!(empty.string(), "x");
    assert_eq!(empty.size(), 1);
}

#[test]
fn insert_str_addresses_clusters() {
    let mut row = Row::from("e\u{301}z");
    row.insert_str(1, "--");
    assert_eq!(row.string(), "e\u{301}--z");
    assert_eq!(row.size(), 4);
    row.insert_str(4, "!?");
    assert_eq!(row.string(), "e\u{301}--z!?");
    row.insert_str(0, "");
    assert_eq!(row.string(), "e\u{301}--z!?");
    assert_eq!(row.size(), 6);
}

#[test]
fn delete_removes_a_whole_cluster() {
    let mut row = Row::from("ae\u{301}z");
    row.delete(1);
    assert_eq!(row.string(), "az");
    assert_eq!(row.size(), 2);
    row.delete(2);
    assert_eq!(row.string(), "az");
    row.delete(usize::MAX);
    assert_eq!(row.string(), "az");
    row.delete(1);
    row.delete(0);
    assert_eq!(row.string(), "");
    assert_eq!(row.size(), 0);
}

#[test]
fn delete_slice_hands_back_what_it_removed() {
    let mut row = Row::from("he\u{301}llo");
    assert_eq!(row.delete_slice(1, 3), Some(String::from("e\u{301}l")));
    assert_eq!(row.string(), "hlo");
    assert_eq!(row.size(), 3);
    assert_eq!(row.delete_slice(0, 3), Some(String::from("hlo")));
    assert_eq!(row.string(), "");
}

#[test]
fn delete_slice_declines_ranges_that_name_nothing() {
    let mut row = Row::from("hello");
    assert_eq!(row.delete_slice(2, 2), None);
    assert_eq!(row.delete_slice(3, 1), None);
    assert_eq!(row.delete_slice(2, 6), None);
    assert_eq!(row.delete_slice(5, 5), None);
    assert_eq!(row.string(), "hello");
    assert_eq!(row.size(), 5);
}

#[test]
fn insert_then_delete_restores_the_row() {
    for at in 0..=3 {
        let mut row = Row::from("ae\u{301}z");
        row.insert(at, 'Q');
        assert_eq!(row.size(), 4);
        row.delete(at);
        assert_eq!(row.string(), "ae\u{301}z");
        assert_eq!(row.size(), 3);
    }
}

#[test]
fn a_combining_mark_joins_the_cluster_before_it() {
    let mut row = Row::from("e");
    row.insert(1, '\u{301}');
    assert_eq!(row.string(), "e\u{301}");
    assert_eq!(row.size(), 1);
    row.delete(1);
    assert_eq!(row.string(), "e\u{301}");
}

#[test]
fn find_forward_and_backward_in_one_row() {
    let row = Row::from("hello");
    assert_eq!(row.find("lo", 0, SearchDir::Forward), Some(3));
    assert_eq!(row.find("he", 3, SearchDir::Backward), Some(0));
    assert_eq!(row.find("l", 0, SearchDir::Forward), Some(2));
    assert_eq!(row.find("l", 3, SearchDir::Forward), Some(3));
    assert_eq!(row.find("l", 4, SearchDir::Forward), None);
    assert_eq!(row.find("l", 5, SearchDir::Backward), Some(3));
    assert_eq!(row.find("l", 3, SearchDir::Backward), Some(2));
    assert_eq!(row.find("l", 2, SearchDir::Backward), None);
    assert_eq!(row.find("hello", 0, SearchDir::Forward), Some(0));
    assert_eq!(row.find("hello", 5, SearchDir::Backward), Some(0));
    assert_eq!(row.find("hello", 4, SearchDir::Backward), None);
    assert_eq!(row.find("hello!", 0, SearchDir::Forward), None);
}

#[test]
fn find_declines_empty_queries_and_far_starts() {
    let row = Row::from("hello");
    assert_eq!(row.find("", 0, SearchDir::Forward), None);
    assert_eq!(row.find("", 5, SearchDir::Backward), None);
    assert_eq!(row.find("h", 6, SearchDir::Forward), None);
    assert_eq!(row.find("h", 6, SearchDir::Backward), None);
    assert_eq!(row.find("h", 5, SearchDir::Forward), None);
    assert_eq!(row.find("h", 0, SearchDir::Backward), None);
    assert_eq!(Row::default().find("h", 0, SearchDir::Forward), None);
}

#[test]
fn find_answers_in_clusters() {
    let row = Row::from("e\u{301}e\u{301}xyz");
    assert_eq!(row.find("x", 0, SearchDir::Forward), Some(2));
    assert_eq!(row.find("yz", 0, SearchDir::Forward), Some(3));
    assert_eq!(row.find("e\u{301}", 1, SearchDir::Forward), Some(1));
    assert_eq!(row.find("e\u{301}", 5, SearchDir::Backward), Some(1));
    assert_eq!(row.find("\u{301}", 0, SearchDir::Forward), None);
}
