use crude::map::StrMap;
use crude::text::{
    chars_of, contains, i64_to_string, is_whitespace, parse_i64, parse_u32, parse_u64, push_char, starts_with,
    str_eq, string_of_range, trim, u64_to_string, usize_to_string,
};

fn s(x: &str) -> String {
    x.to_string()
}

#[test]
fn numbers_parse_like_std() {
    assert_eq!(parse_u64("42"), Some(42));
    assert_eq!(parse_u64("+7"), Some(7));
    assert_eq!(parse_u64("18446744073709551615"), Some(u64::MAX));
    assert_eq!(parse_u64("18446744073709551616"), None);
    assert_eq!(parse_u64(""), None);
    assert_eq!(parse_u64("+"), None);
    assert_eq!(parse_u64(" 1"), None);
    assert_eq!(parse_u64("-1"), None);
    assert_eq!(parse_u32("4294967295"), Some(u32::MAX));
    assert_eq!(parse_u32("4294967296"), None);
    assert_eq!(parse_i64("-9223372036854775808"), Some(i64::MIN));
    assert_eq!(parse_i64("9223372036854775807"), Some(i64::MAX));
    assert_eq!(parse_i64("9223372036854775808"), None);
    assert_eq!(parse_i64("-0"), Some(0));
    assert_eq!(parse_i64("+12"), Some(12));
    assert_eq!(parse_i64("-"), None);
    assert_eq!(parse_i64("1.5"), None);
    for x in ["0", "12", "-3", "+4", "abc", "", "99999999999999999999"] {
        assert_eq!(parse_i64(x), x.parse::<i64>().ok());
        assert_eq!(parse_u64(x), x.parse::<u64>().ok());
    }
}

#[test]
fn numbers_print_in_decimal() {
    assert_eq!(u64_to_string(0), "0");
    assert_eq!(u64_to_string(1234567890), "1234567890");
    assert_eq!(u64_to_string(u64::MAX), u64::MAX.to_string());
    assert_eq!(usize_to_string(31), "31");
    assert_eq!(i64_to_string(-45), "-45");
    assert_eq!(i64_to_string(i64::MIN), i64::MIN.to_string());
    assert_eq!(i64_to_string(0), "0");
}

#[test]
fn trimming_and_matching() {
    assert_eq!(trim("  a b \n\t"), "a b");
    assert_eq!(trim("   "), "");
    assert_eq!(trim("\u{3000}x\u{a0}"), "\u{3000}x\u{a0}".trim());
    assert!(is_whitespace(' '));
    assert!(is_whitespace('\u{2003}'));
    assert!(!is_whitespace('x'));
    assert!(starts_with("mapping:k", "mapping:"));
    assert!(!starts_with("map", "mapping:"));
    assert!(contains("hello world", "o w"));
    assert!(contains("abc", ""));
    assert!(!contains("abc", "abcd"));
    assert!(str_eq("x", "x"));
    assert!(!str_eq("x", "X"));
}

#[test]
fn char_ranges() {
    let v = chars_of("héllo");
    assert_eq!(v.len(), 5);
    assert_eq!(string_of_range(&v, 1, 3), "él");
    let mut t = s("a");
    push_char(&mut t, 'ß');
    assert_eq!(t, "aß");
}

#[test]
fn map_keeps_insertion_order() {
    let mut m: StrMap<String> = StrMap::new();
    assert!(m.is_empty());
    m.insert(s("b"), s("1"));
    m.insert(s("a"), s("2"));
    m.insert(s("b"), s("3"));
    assert_eq!(m.len(), 2);
    assert_eq!(m.keys(), vec![s("b"), s("a")]);
    assert_eq!(m.get("b").map(|v| v.as_str()), Some("3"));
    assert!(m.contains_key("a"));
    assert_eq!(m.remove("b"), Some(s("3")));
    assert_eq!(m.remove("b"), None);
    assert_eq!(m.keys(), vec![s("a")]);
}

#[test]
fn map_insert_if_absent_and_extend() {
    let mut m: StrMap<String> = StrMap::new();
    m.insert(s("k"), s("old"));
    m.insert_if_absent(s("k"), s("new"));
    m.insert_if_absent(s("j"), s("x"));
    assert_eq!(m.get("k").map(|v| v.as_str()), Some("old"));
    let mut other = StrMap::new();
    other.insert(s("k"), s("over"));
    other.insert(s("z"), s("z"));
    m.extend_from(&other);
    assert_eq!(m.get("k").map(|v| v.as_str()), Some("over"));
    assert_eq!(m.keys(), vec![s("k"), s("j"), s("z")]);
    let c = m.cleared();
    assert_eq!(c.keys(), m.keys());
    assert_eq!(c.get("z").map(|v| v.as_str()), Some(""));
    let copy = m.clone_map();
    assert_eq!(copy.into_entries(), vec![(s("k"), s("over")), (s("j"), s("x")), (s("z"), s("z"))]);
}

#[test]
fn map_fill_from_only_adds_missing() {
    let mut m: StrMap<String> = StrMap::new();
    m.insert(s("a"), s("mine"));
    let mut other = StrMap::new();
    other.insert(s("a"), s("theirs"));
    other.insert(s("b"), s("new"));
    m.fill_from(&other);
    assert_eq!(m.into_entries(), vec![(s("a"), s("mine")), (s("b"), s("new"))]);
}
