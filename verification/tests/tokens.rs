use rustserv::encoding::{starts_with, str_eq, substring};
use rustserv::tokens::split_whitespace;

#[test]
fn words_come_out_in_order() {
    assert_eq!(split_whitespace("GET / HTTP/1.1"), vec!["GET", "/", "HTTP/1.1"]);
}

#[test]
fn no_words_in_an_empty_or_blank_line() {
    assert!(split_whitespace("").is_empty());
    assert!(split_whitespace(" \t \r\n\u{c}").is_empty());
}

#[test]
fn every_ascii_whitespace_separates() {
    assert_eq!(split_whitespace("a b\tc\nd\u{c}e\rf"), vec!["a", "b", "c", "d", "e", "f"]);
}

#[test]
fn other_blank_characters_do_not_separate() {
    // Vertical tab, no-break space and the line separator are not ASCII whitespace.
    assert_eq!(split_whitespace("a\u{b}b"), vec!["a\u{b}b"]);
    assert_eq!(split_whitespace("a\u{a0}b \u{2028}"), vec!["a\u{a0}b", "\u{2028}"]);
}

#[test]
fn characters_of_every_width_stay_whole() {
    assert_eq!(
        split_whitespace(" \u{e9}t\u{e9}  \u{4e16}\u{754c} \u{1f600}x "),
        vec!["\u{e9}t\u{e9}", "\u{4e16}\u{754c}", "\u{1f600}x"]
    );
}

#[test]
fn agrees_with_the_standard_splitter_on_ascii_whitespace() {
    let samples = [
        "",
        "one",
        " lead",
        "trail ",
        "a  b",
        "GET /index.html HTTP/1.1 extra",
        "\t\tx\r\ny\n\nz",
        "\u{fffd} \u{7f} \u{80}",
    ];
    for sample in samples {
        let expected: Vec<&str> = sample.split_ascii_whitespace().collect();
        assert_eq!(split_whitespace(sample), expected, "{:?}", sample);
    }
}

#[test]
fn equal_texts_and_different_texts() {
    assert!(str_eq("", ""));
    assert!(str_eq("GET", "GET"));
    assert!(!str_eq("GET", "GEt"));
    assert!(!str_eq("GET", "GETS"));
    assert!(!str_eq("GETS", "GET"));
    assert!(str_eq("\u{e9}", "\u{e9}"));
    assert!(!str_eq("\u{e9}", "\u{e8}"));
}

#[test]
fn prefixes() {
    assert!(starts_with("HTTP/1.1", "HTTP/"));
    assert!(starts_with("HTTP/", "HTTP/"));
    assert!(starts_with("anything", ""));
    assert!(!starts_with("HTTP", "HTTP/"));
    assert!(!starts_with("HTTp/1.1", "HTTP/"));
    assert!(!starts_with("", "H"));
    assert!(starts_with("\u{e9}t\u{e9}", "\u{e9}t"));
    assert!(!starts_with("\u{e9}t\u{e9}", "\u{e8}"));
}

#[test]
fn slices_between_character_starts() {
    let text = "a\u{e9}b\u{1f600}c";
    assert_eq!(substring(text, 0, 0), "");
    assert_eq!(substring(text, 0, 1), "a");
    assert_eq!(substring(text, 1, 3), "\u{e9}");
    assert_eq!(substring(text, 3, 8), "b\u{1f600}");
    assert_eq!(substring(text, 8, 9), "c");
    assert_eq!(substring(text, 0, text.len()), text);
}
