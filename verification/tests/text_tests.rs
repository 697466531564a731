use talkshows::text::{trim_str, contains, replace, split};

#[test]
fn trim_removes_outer_white_space() {
    assert_eq!(trim_str("  Anne Will \n"), "Anne Will");
    assert_eq!(trim_str("\u{a0}x\u{3000}"), "x");
    assert_eq!(trim_str("   "), "");
}

#[test]
fn trim_agrees_with_std() {
    for s in ["", " a ", "\t\r\n b c \u{85}", "\u{2000}\u{200a}z\u{205f}", "abc"] {
        assert_eq!(trim_str(s), s.trim());
    }
}

#[test]
fn contains_finds_substrings() {
    assert!(contains("https://x/Die-Gaeste-im-Studio", "Gaeste"));
    assert!(!contains("https://x/sendung", "Gaeste"));
    assert!(contains("abc", ""));
}

#[test]
fn replace_all_occurrences() {
    assert_eq!(replace("maybrit illner", " ", "+"), "maybrit+illner");
    assert_eq!(replace("a|b|c", "|", ""), "abc");
    assert_eq!(replace("aaa", "aa", "b"), "ba");
}

#[test]
fn split_on_separator() {
    assert_eq!(split("A, B, C", ", "), vec!["A", "B", "C"]);
    assert_eq!(split("", ", "), vec![""]);
    assert_eq!(split("A,B", ", "), vec!["A,B"]);
}
