use slime::cluster::{join, display, excise, find, offsets, scalars, splice, stands_at};
use slime::editor::SearchDir;

#[test]
fn join_joins_a_run_of_clusters() {
    let parts = vec!["h", "e\u{301}", "l", "l", "o"];
    assert_eq!(join(&parts, 0, 5), "he\u{301}llo");
    assert_eq!(join(&parts, 1, 3), "e\u{301}l");
    assert_eq!(join(&parts, 2, 2), "");
    assert_eq!(join(&Vec::new(), 0, 0), "");
}

#[test]
fn splice_puts_a_run_between_clusters() {
    let parts = vec!["h", "e\u{301}", "y"];
    assert_eq!(splice(&parts, 0, "->"), "->he\u{301}y");
    assert_eq!(splice(&parts, 2, "->"), "he\u{301}->y");
    assert_eq!(splice(&parts, 3, "->"), "he\u{301}y->");
    assert_eq!(splice(&parts, 1, ""), "he\u{301}y");
}

#[test]
fn excise_takes_a_run_of_clusters_out() {
    let parts = vec!["h", "e\u{301}", "y"];
    assert_eq!(excise(&parts, 1, 2), "hy");
    assert_eq!(excise(&parts, 0, 3), "");
    assert_eq!(excise(&parts, 2, 2), "he\u{301}y");
}

#[test]
fn display_shows_a_space_for_a_cluster_that_is_a_tab() {
    let parts = vec!["a", "\t", "b", "\t\u{301}", "c"];
    assert_eq!(display(&parts, 0, 5), "a b\t\u{301}c");
    assert_eq!(display(&parts, 1, 2), " ");
    assert_eq!(display(&parts, 4, 9), "c");
    assert_eq!(display(&parts, 7, 9), "");
    assert_eq!(display(&parts, 3, 1), "");
}

#[test]
fn find_takes_the_clusters_as_they_are_given() {
    let parts = vec!["ab", "c", "ab", "c"];
    assert_eq!(find(&parts, "c", 0, SearchDir::Forward), Some(1));
    assert_eq!(find(&parts, "c", 2, SearchDir::Forward), Some(3));
    assert_eq!(find(&parts, "b", 0, SearchDir::Forward), None);
    assert_eq!(find(&parts, "abc", 1, SearchDir::Forward), Some(2));
    assert_eq!(find(&parts, "abc", 4, SearchDir::Backward), Some(2));
    assert_eq!(find(&parts, "abc", 3, SearchDir::Backward), Some(0));
    assert_eq!(find(&parts, "abc", 1, SearchDir::Backward), None);
    assert_eq!(find(&parts, "a", 4, SearchDir::Backward), Some(2));
    assert_eq!(find(&parts, "a", 5, SearchDir::Backward), None);
    assert_eq!(find(&parts, "", 0, SearchDir::Forward), None);
}

#[test]
fn scalars_offsets_and_stands_at() {
    assert_eq!(scalars("he\u{301}"), vec!['h', 'e', '\u{301}']);
    assert_eq!(offsets(&vec!["h", "e\u{301}", "llo"]), vec![0, 1, 3, 6]);
    assert_eq!(offsets(&Vec::new()), vec![0]);
    let text = scalars("hello");
    assert!(stands_at(&text, 2, 5, &scalars("llo")));
    assert!(stands_at(&text, 2, 5, &scalars("")));
    assert!(!stands_at(&text, 2, 4, &scalars("llo")));
    assert!(!stands_at(&text, 1, 5, &scalars("llo")));
}
