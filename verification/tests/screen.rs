use slime::screen::{cell_of, message_bar_text, status_bar_text, welcome_message};
use slime::text::{clip, decimal_string, digit_char, pad};

#[test]
fn decimal_string_writes_numbers() {
    assert_eq!(decimal_string(0), "0");
    assert_eq!(decimal_string(7), "7");
    assert_eq!(decimal_string(10), "10");
    assert_eq!(decimal_string(12345), "12345");
    assert_eq!(decimal_string(usize::MAX), usize::MAX.to_string());
    assert_eq!(digit_char(0), '0');
    assert_eq!(digit_char(9), '9');
}

#[test]
fn clip_cuts_by_scalar_values() {
    assert_eq!(clip("hello", 3), "hel");
    assert_eq!(clip("hello", 5), "hello");
    assert_eq!(clip("hello", 9), "hello");
    assert_eq!(clip("hello", 0), "");
    assert_eq!(clip("h\u{e9}llo", 2), "h\u{e9}");
}

#[test]
fn pad_appends_spaces() {
    let mut text = String::from("ab");
    pad(&mut text, 3);
    assert_eq!(text, "ab   ");
    pad(&mut text, 0);
    assert_eq!(text, "ab   ");
}

#[test]
fn status_bar_puts_the_cursor_at_the_right_edge() {
    assert_eq!(
        status_bar_text(Some("notes.txt"), 12, false, 3, 7, 40),
        "notes.txt -- 12 lines                7/3"
    );
    assert_eq!(
        status_bar_text(Some("notes.txt"), 12, true, 3, 7, 40),
        "notes.txt -- 12 lines (modified)     7/3"
    );
    assert_eq!(status_bar_text(None, 0, false, 0, 0, 30), "[No Name] -- 0 lines       0/0");
}

#[test]
fn status_bar_cuts_long_names_and_narrow_screens() {
    assert_eq!(
        status_bar_text(Some("a-very-long-file-name-indeed.txt"), 1, false, 0, 0, 40),
        "a-very-long-file-nam -- 1 lines      0/0"
    );
    assert_eq!(status_bar_text(Some("notes.txt"), 12, true, 3, 7, 10), "notes.txt ");
    assert_eq!(
        status_bar_text(Some("notes.txt"), 12, false, 3, 7, 24),
        "notes.txt -- 12 lines7/3"
    );
    assert_eq!(
        status_bar_text(Some("notes.txt"), 12, false, 3, 7, 25),
        "notes.txt -- 12 lines 7/3"
    );
    assert_eq!(status_bar_text(Some("notes.txt"), 12, false, 3, 7, 0), "");
}

#[test]
fn message_bar_shows_fresh_messages_only() {
    assert_eq!(message_bar_text("File saved", 0, 80), "File saved");
    assert_eq!(message_bar_text("File saved", 4, 80), "File saved");
    assert_eq!(message_bar_text("File saved", 5, 80), "");
    assert_eq!(message_bar_text("File saved", u64::MAX, 80), "");
    assert_eq!(message_bar_text("File saved", 0, 4), "File");
}

#[test]
fn welcome_message_is_centred() {
    assert_eq!(welcome_message(80, 24), (25, 12, String::from("Slime editor -- version 0.1.0")));
    assert_eq!(welcome_message(30, 5), (0, 2, String::from("Slime editor -- version 0.1.0")));
    assert_eq!(welcome_message(29, 5), (0, 2, String::from("Slime editor -- version 0.1.0")));
    assert_eq!(welcome_message(10, 1), (0, 0, String::from("Slime edit")));
    assert_eq!(welcome_message(0, 0), (0, 0, String::new()));
}

#[test]
fn cell_of_counts_in_sixteen_bits() {
    assert_eq!(cell_of(0), 0);
    assert_eq!(cell_of(65535), 65535);
    assert_eq!(cell_of(65536), 0);
    assert_eq!(cell_of(65539), 3);
}
