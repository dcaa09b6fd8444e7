use traitbot::text::{
    chars_of, decimal_string, is_whitespace, join_strings, replace_str, split_words, str_contains,
    str_eq, str_eq_ignore_ascii_case, str_starts_with, trim_str,
};

#[test]
fn whitespace_matches_std_for_every_char() {
    for n in 0u32..=0x10FFFF {
        if let Some(c) = char::from_u32(n) {
            assert_eq!(is_whitespace(c), c.is_whitespace(), "char {:x}", n);
        }
    }
}

#[test]
fn chars_of_keeps_order() {
    assert_eq!(chars_of("añb€"), vec!['a', 'ñ', 'b', '€']);
    assert_eq!(chars_of(""), Vec::<char>::new());
}

#[test]
fn trim_matches_std() {
    for s in ["", "   ", "  a ", "\u{3000}x y\u{a0}", "\t\nhello\r\n", "a", " a b  "] {
        assert_eq!(trim_str(s), s.trim());
    }
}

#[test]
fn split_words_matches_std() {
    for s in ["", "   ", "/ai hello   world", " a\tb\nc ", "one", "\u{2003}x\u{2003}"] {
        let expected: Vec<String> = s.split_whitespace().map(|w| w.to_string()).collect();
        assert_eq!(split_words(s), expected);
    }
}

#[test]
fn join_matches_std() {
    let list = vec!["a".to_string(), "bc".to_string(), "".to_string()];
    assert_eq!(join_strings(&list, "\n"), list.join("\n"));
    assert_eq!(join_strings(&[], " "), "");
    assert_eq!(join_strings(&["x".to_string()], ", "), "x");
}

#[test]
fn contains_and_starts_with_match_std() {
    for (s, p) in [("abc", "bc"), ("abc", ""), ("", "a"), ("429 Too Many", "429"), ("a4029", "402")] {
        assert_eq!(str_contains(s, p), s.contains(p));
        assert_eq!(str_starts_with(s, p), s.starts_with(p));
    }
    assert!(str_eq("ciao", "ciao"));
    assert!(!str_eq("ciao", "Ciao"));
    assert!(!str_eq("ciao", "cia"));
}

#[test]
fn replace_matches_std() {
    for s in ["/ai hello", "/ai /ai x", "no", "/a/ai", "/ai/ai"] {
        assert_eq!(replace_str(s, "/ai", ""), s.replace("/ai", ""));
        assert_eq!(replace_str(s, "/ai", "<>"), s.replace("/ai", "<>"));
    }
}

#[test]
fn eq_ignore_ascii_case_matches_std() {
    for (a, b) in [("DELETE", "delete"), ("Delete", "DELETE"), ("SAFE", "DELETE"), ("É", "é"), ("", "")] {
        assert_eq!(str_eq_ignore_ascii_case(a, b), a.eq_ignore_ascii_case(b));
    }
}

#[test]
fn decimal_matches_display() {
    for n in [0u64, 7, 10, 1338291003085422594, u64::MAX] {
        assert_eq!(decimal_string(n), n.to_string());
    }
}

#[test]
fn trimming_twice_changes_nothing() {
    for s in ["  a b ", "\u{2028}x", "", "y"] {
        let once = trim_str(s);
        assert_eq!(trim_str(&once), once);
    }
}

#[test]
fn words_are_nonempty_without_white_space() {
    for w in split_words(" a  b\t\u{3000}cd \n") {
        assert!(!w.is_empty());
        assert!(!w.chars().any(|c| c.is_whitespace()));
    }
}
