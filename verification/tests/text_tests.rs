use osm_gpx::text::{characters, contains_text};

#[test]
fn characters_are_those_of_the_text() {
    assert_eq!(characters("añb"), vec!['a', 'ñ', 'b']);
    assert_eq!(characters(""), Vec::<char>::new());
}

#[test]
fn contains_text_finds_a_part_anywhere() {
    assert!(contains_text("camp site 1", "camp"));
    assert!(contains_text("camp site 1", "site"));
    assert!(contains_text("camp site 1", "1"));
    assert!(contains_text("camp site 1", "camp site 1"));
}

#[test]
fn contains_text_misses_what_is_not_there() {
    assert!(!contains_text("forest", "camp"));
    assert!(!contains_text("cam", "camp"));
    assert!(!contains_text("", "a"));
    assert!(!contains_text("Camp", "camp"));
    assert!(!contains_text("cxaxmxp", "camp"));
}

#[test]
fn contains_text_finds_the_empty_text_everywhere() {
    assert!(contains_text("abc", ""));
    assert!(contains_text("", ""));
}

#[test]
fn contains_text_goes_on_after_a_false_start() {
    assert!(contains_text("aaab", "aab"));
    assert!(contains_text("ababac", "abac"));
    assert!(!contains_text("ababab", "abac"));
}

#[test]
fn contains_text_counts_characters_not_bytes() {
    assert!(contains_text("grande école", "école"));
    assert!(contains_text("日本語のテキスト", "テキ"));
    assert!(!contains_text("日本語", "語日"));
}
