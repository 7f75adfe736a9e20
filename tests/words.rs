use page_scraper::words::{is_white_space_char, push_words};

#[test]
fn white_space_matches_char_is_whitespace() {
    for u in 0u32..0x11_0000 {
        if let Some(c) = char::from_u32(u) {
            assert_eq!(is_white_space_char(c), c.is_whitespace(), "U+{:04X}", u);
        }
    }
}

#[test]
fn words_split_at_any_whitespace_run() {
    let mut out = vec!["kept".to_string()];
    push_words("  a\t\nb\u{a0}c\u{3000}d  ", &mut out);
    assert_eq!(out, vec!["kept", "a", "b", "c", "d"]);
}

#[test]
fn blank_text_has_no_words() {
    let mut out: Vec<String> = Vec::new();
    push_words(" \n\t ", &mut out);
    assert!(out.is_empty());
    push_words("", &mut out);
    assert!(out.is_empty());
}

#[test]
fn words_match_split_whitespace() {
    let text = "é\u{2003}ü x\u{85}y\u{2028}z  ";
    let mut out: Vec<String> = Vec::new();
    push_words(text, &mut out);
    let expected: Vec<String> = text.split_whitespace().map(String::from).collect();
    assert_eq!(out, expected);
}
