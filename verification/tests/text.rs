use showcase_curator::text::{
    chars_of, contains, decimal_string, push_decimal, push_signed_decimal, starts_with, str_eq,
    trim_title,
};

#[test]
fn chars_of_keeps_every_character_in_order() {
    assert_eq!(chars_of("a💙b"), vec!['a', '💙', 'b']);
    assert_eq!(chars_of(""), Vec::<char>::new());
}

#[test]
fn starts_with_tells_a_prefix() {
    assert!(starts_with("https://example.org", "https://"));
    assert!(starts_with("https://", "https://"));
    assert!(starts_with("anything", ""));
    assert!(!starts_with("http://example.org", "https://"));
    assert!(!starts_with("https:/", "https://"));
    assert!(!starts_with(" https://example.org", "https://"));
    assert!(!starts_with("", "https://"));
}

#[test]
fn contains_finds_a_block_anywhere() {
    assert!(contains("say !rizz now", "!rizz"));
    assert!(contains("!rizz", "!rizz"));
    assert!(contains("xx!rizz", "!rizz"));
    assert!(contains("abc", ""));
    assert!(contains("", ""));
    assert!(!contains("say !riz z now", "!rizz"));
    assert!(!contains("!riz", "!rizz"));
    assert!(!contains("", "!rizz"));
}

#[test]
fn str_eq_compares_characters() {
    assert!(str_eq("upvote", "upvote"));
    assert!(str_eq("", ""));
    assert!(str_eq("💙", "💙"));
    assert!(!str_eq("upvote", "upvotes"));
    assert!(!str_eq("upvote", "Upvote"));
    assert!(!str_eq("💙", "😂"));
}

#[test]
fn decimal_string_writes_numerals() {
    assert_eq!(decimal_string(0), "0");
    assert_eq!(decimal_string(7), "7");
    assert_eq!(decimal_string(10), "10");
    assert_eq!(decimal_string(1343553189508681728), "1343553189508681728");
    assert_eq!(decimal_string(u64::MAX), "18446744073709551615");
}

#[test]
fn push_decimal_appends() {
    let mut out = String::from("n=");
    push_decimal(&mut out, 305);
    assert_eq!(out, "n=305");
}

#[test]
fn trim_title_leaves_short_text_alone() {
    assert_eq!(trim_title(""), "");
    assert_eq!(trim_title("hello"), "hello");
    let full = "x".repeat(256);
    assert_eq!(trim_title(&full), full);
}

#[test]
fn trim_title_caps_long_text_at_the_limit() {
    let long = "y".repeat(257);
    let title = trim_title(&long);
    assert_eq!(title, format!("{}...", "y".repeat(253)));
    assert_eq!(title.chars().count(), 256);
}

#[test]
fn trim_title_counts_characters_not_bytes() {
    let short = "é".repeat(200);
    assert_eq!(trim_title(&short), short);
    let long = "é".repeat(300);
    assert_eq!(trim_title(&long), format!("{}...", "é".repeat(253)));
}

#[test]
fn push_signed_decimal_writes_the_sign() {
    for (n, text) in [(0isize, "0"), (5, "5"), (-5, "-5"), (-120, "-120")] {
        let mut out = String::new();
        push_signed_decimal(&mut out, n);
        assert_eq!(out, text);
    }
    let mut out = String::from("a");
    push_signed_decimal(&mut out, isize::MIN);
    assert_eq!(out, format!("a{}", isize::MIN));
    let mut out = String::from("b");
    push_signed_decimal(&mut out, isize::MAX);
    assert_eq!(out, format!("b{}", isize::MAX));
}
