use viap::list::{remove_repeats, sorted_texts};
use viap::text::{
    byte_length, contains, decimal_text, ends_with, expand_char, is_before, is_plain_char,
    is_whitespace, join, parse_u64, position, remove_controls, remove_leading, replace_char,
    replace_text, signed_decimal_text, split, split_filled, split_words, starts_with,
    take_up_to, to_ascii_lowercase, trim, trim_end, trim_start, CharSet,
};

fn all_chars() -> impl Iterator<Item = char> {
    (0u32..=0x10ffff).filter_map(char::from_u32)
}

#[test]
fn blanks_are_those_of_the_standard_library() {
    for c in all_chars() {
        assert_eq!(is_whitespace(c), c.is_whitespace(), "{:?}", c);
    }
}

#[test]
fn controls_are_those_of_the_standard_library() {
    for c in all_chars() {
        let s: String = c.to_string();
        assert_eq!(remove_controls(&s).is_empty(), c.is_control(), "{:?}", c);
        assert_eq!(byte_length(&s), s.len());
        assert_eq!(is_plain_char(c), c.is_ascii_alphanumeric());
    }
}

#[test]
fn character_sets_follow_the_standard_library() {
    for c in all_chars() {
        assert_eq!(CharSet::NotAlphanumeric.has_char(c), !c.is_alphanumeric(), "{:?}", c);
        assert_eq!(CharSet::NotAsciiAlphanumeric.has_char(c), !c.is_ascii_alphanumeric());
        assert_eq!(CharSet::Forbidden.has_char(c), "\\/:*?\"<>|".contains(c), "{:?}", c);
    }
}

#[test]
fn texts_are_trimmed() {
    assert_eq!(trim(" \u{3000}a b\t", CharSet::Whitespace), "a b");
    assert_eq!(trim_start("//a/", CharSet::One('/')), "a/");
    assert_eq!(trim_end("a\\/", CharSet::Two('\\', '/')), "a");
    assert_eq!(trim("\"\"", CharSet::One('"')), "");
}

#[test]
fn texts_are_searched() {
    assert!(starts_with("abc", "ab") && !starts_with("abc", "bc"));
    assert!(ends_with("abc", "bc") && ends_with("abc", ""));
    assert!(contains("aab", "ab") && contains("", "") && !contains("a", "aa"));
    assert_eq!(position("微信微信", "信"), Some(1));
    assert_eq!(position("a", "b"), None);
    assert_eq!(take_up_to("a=b=c", "="), "a");
    assert_eq!(remove_leading("vv1", "v"), "1");
    assert_eq!(replace_text("aaa", "aa", "b"), "ba");
    assert_eq!(replace_char("a/b/", '/', '\\'), "a\\b\\");
    assert_eq!(expand_char("it's", '\'', "''"), "it''s");
}

#[test]
fn texts_are_split_and_joined() {
    let owned = |parts: &[&str]| -> Vec<String> { parts.iter().map(|p| p.to_string()).collect() };
    assert_eq!(split("a,,b", CharSet::One(',')), owned(&["a", "", "b"]));
    assert_eq!(split("", CharSet::One(',')), owned(&[""]));
    assert_eq!(split_filled(",a,,b,", CharSet::One(',')), owned(&["a", "b"]));
    assert_eq!(split_words(" a  b\t"), owned(&["a", "b"]));
    assert_eq!(join(&owned(&["a", "b"]), ", "), "a, b");
    assert_eq!(join(&Vec::new(), ", "), "");
}

#[test]
fn numbers_are_written_and_read() {
    for n in [0, 7, 10, 12345, u64::MAX] {
        assert_eq!(decimal_text(n), n.to_string());
        assert_eq!(parse_u64(&n.to_string()), Some(n));
    }
    for n in [0, -1, i32::MIN, i32::MAX] {
        assert_eq!(signed_decimal_text(n), n.to_string());
    }
    for s in ["", "+", "-1", "1a", "18446744073709551616", "+5", "007", "１"] {
        assert_eq!(parse_u64(s), s.parse::<u64>().ok(), "{}", s);
    }
}

#[test]
fn texts_are_ordered_as_the_standard_library_orders_them() {
    let samples = ["", "a", "A", "ab", "微", "b", "\u{10000}", "\u{ffff}"];
    for a in samples {
        for b in samples {
            assert_eq!(is_before(a, b), a < b);
        }
        assert_eq!(to_ascii_lowercase(a), a.to_ascii_lowercase());
    }
    let mut expected: Vec<String> = samples.iter().map(|s| s.to_string()).collect();
    let sorted = sorted_texts(expected.clone());
    expected.sort();
    assert_eq!(sorted, expected);
    let repeats = vec!["b".to_string(), "b".to_string(), "a".to_string()];
    assert_eq!(remove_repeats(repeats), vec!["b".to_string(), "a".to_string()]);
}
