use openrouter_local::text::{
    count_words, i64_text, is_blank, replace_text, text_contains, trim_end_matching, trim_text, u64_text,
};

#[test]
fn trims_unicode_white_space_on_both_sides() {
    assert_eq!(trim_text("  \t hello world \n"), "hello world");
    assert_eq!(trim_text("\u{3000}x\u{a0}"), "x");
    assert_eq!(trim_text("   "), "");
    assert_eq!(trim_text(""), "");
}

#[test]
fn blank_means_only_white_space() {
    assert!(is_blank(""));
    assert!(is_blank(" \n\t"));
    assert!(!is_blank(" a "));
}

#[test]
fn counts_words_like_split_whitespace() {
    for s in ["", "one", "  two words ", "a\tb\nc  d", "thầm thơ", "\u{2003}x\u{2003}y"] {
        assert_eq!(count_words(s), s.split_whitespace().count(), "{s:?}");
    }
}

#[test]
fn renders_integers_in_decimal() {
    assert_eq!(u64_text(0), "0");
    assert_eq!(u64_text(18790), "18790");
    assert_eq!(u64_text(u64::MAX), u64::MAX.to_string());
    assert_eq!(i64_text(-42), "-42");
    assert_eq!(i64_text(i64::MIN), i64::MIN.to_string());
    assert_eq!(i64_text(i64::MAX), i64::MAX.to_string());
}

#[test]
fn finds_infixes() {
    assert!(text_contains("error: database is locked (5)", "database is locked"));
    assert!(!text_contains("database is busy", "database is locked"));
    assert!(text_contains("abc", ""));
    assert!(!text_contains("ab", "abc"));
}

#[test]
fn replaces_like_str_replace() {
    for (s, p, r) in [
        ("aaaa", "aa", "b"),
        ("OpenRouterLocal Dashboard and OpenRouterLocal Dashboard", "Dashboard", "Logs"),
        ("abcabc", "bc", ""),
        ("nothing here", "xyz", "q"),
    ] {
        assert_eq!(replace_text(s, p, r), s.replace(p, r));
    }
}

#[test]
fn trims_trailing_slashes_only() {
    assert_eq!(trim_end_matching("https://api.openai.com/v1//", '/'), "https://api.openai.com/v1");
    assert_eq!(trim_end_matching("/a/b", '/'), "/a/b");
    assert_eq!(trim_end_matching("///", '/'), "");
}
