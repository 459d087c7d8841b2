use archivist::text::{
    chars_of, comes_before, is_whitespace, join, remove_all, split, starts_with, string_of, words,
};

fn strings(items: &[&str]) -> Vec<String> {
    items.iter().map(|s| s.to_string()).collect()
}

#[test]
fn split_cuts_at_every_separator() {
    assert_eq!(split("a/b/c", '/'), strings(&["a", "b", "c"]));
    assert_eq!(split("invoices/+", '/'), strings(&["invoices", "+"]));
}

#[test]
fn split_of_empty_text_is_one_empty_piece() {
    assert_eq!(split("", '/'), strings(&[""]));
}

#[test]
fn split_keeps_empty_pieces() {
    assert_eq!(split("/a//b/", '/'), strings(&["", "a", "", "b", ""]));
}

#[test]
fn join_puts_separator_between_neighbours() {
    assert_eq!(join(&strings(&["a", "b", "c"]), '/'), "a/b/c");
    assert_eq!(join(&strings(&["only"]), '/'), "only");
    assert_eq!(join(&strings(&[]), '/'), "");
    assert_eq!(join(&strings(&["", ""]), '/'), "/");
}

#[test]
fn join_undoes_split() {
    for text in ["", "/", "a", "a/b", "//x/", "misc/file", "ä/ö/ü"] {
        assert_eq!(join(&split(text, '/'), '/'), text);
    }
}

#[test]
fn split_undoes_join() {
    let parts = strings(&["x", "", "yz"]);
    assert_eq!(split(&join(&parts, '/'), '/'), parts);
}

#[test]
fn words_are_runs_between_white_space() {
    assert_eq!(words("invoice 2024"), strings(&["invoice", "2024"]));
    assert_eq!(words("  a \t b\n\nc  "), strings(&["a", "b", "c"]));
    assert_eq!(words(""), strings(&[]));
    assert_eq!(words(" \t "), strings(&[]));
    assert_eq!(words("tax\u{00A0}office\u{3000}x"), strings(&["tax", "office", "x"]));
}

#[test]
fn words_agree_with_split_whitespace() {
    for text in ["a b", " lead", "trail ", "x\u{2003}y", "one", "a\u{0085}b\u{1680}c"] {
        let expected: Vec<String> = text.split_whitespace().map(|s| s.to_string()).collect();
        assert_eq!(words(text), expected);
    }
}

#[test]
fn whitespace_is_the_unicode_property() {
    for code in 0u32..0x11000 {
        if let Some(c) = char::from_u32(code) {
            assert_eq!(is_whitespace(c), c.is_whitespace());
        }
    }
}

#[test]
fn chars_and_back() {
    let chars = chars_of("héllo");
    assert_eq!(chars, vec!['h', 'é', 'l', 'l', 'o']);
    assert_eq!(string_of(&chars, 1, 4), "éll");
    assert_eq!(string_of(&chars, 2, 2), "");
}

#[test]
fn dictionary_order_is_that_of_strings() {
    let samples = ["", "a", "b", "ab", "abc", "B", "z", "zz", "é", "10", "9"];
    for a in samples {
        for b in samples {
            assert_eq!(comes_before(&chars_of(a), &chars_of(b)), a <= b);
        }
    }
}

#[test]
fn remove_all_takes_every_occurrence_out() {
    assert_eq!(remove_all("/auth token", "/auth "), "token");
    assert_eq!(remove_all("a/auth b/auth c", "/auth "), "abc");
    assert_eq!(remove_all("a/auth b/authc", "/auth "), "ab/authc");
    assert_eq!(remove_all("aaa", "aa"), "a");
    assert_eq!(remove_all("abc", ""), "abc");
    assert_eq!(remove_all("", "x"), "");
    assert_eq!(remove_all("xxxx", "x"), "");
    for (text, pattern) in [("ababab", "aba"), ("hello", "l"), ("/auth /auth x", "/auth "), ("aXbXc", "X")] {
        assert_eq!(remove_all(text, pattern), text.replace(pattern, ""));
    }
}

#[test]
fn starts_with_compares_the_head() {
    assert!(starts_with("/auth x", "/auth"));
    assert!(starts_with("abc", ""));
    assert!(starts_with("abc", "abc"));
    assert!(!starts_with("ab", "abc"));
    assert!(!starts_with("xabc", "abc"));
}
