use tinyguardian::text::{
    byte_range, chars_of, join_strings, parse_u64, push_signed_decimal, remove_all_str, remove_char,
    slice_allowed, starts_with, u64_to_decimal,
};

#[test]
fn decimal_rendering() {
    assert_eq!(u64_to_decimal(0), "0");
    assert_eq!(u64_to_decimal(7), "7");
    assert_eq!(u64_to_decimal(1234), "1234");
    assert_eq!(u64_to_decimal(u64::MAX), "18446744073709551615");
}

#[test]
fn signed_decimal_rendering() {
    let mut s = String::from("x=");
    push_signed_decimal(&mut s, -15);
    assert_eq!(s, "x=-15");
    let mut m = String::new();
    push_signed_decimal(&mut m, i64::MIN);
    assert_eq!(m, i64::MIN.to_string());
    let mut z = String::new();
    push_signed_decimal(&mut z, 0);
    assert_eq!(z, "0");
}

#[test]
fn parse_like_std() {
    for s in ["42", "+7", "", "+", "-1", "-0", "007", "12a", " 1", "18446744073709551615", "18446744073709551616", "99999999999999999999999"] {
        assert_eq!(parse_u64(s), s.parse::<u64>().ok(), "input {:?}", s);
    }
    assert_eq!(parse_u64("123"), Some(123));
    assert_eq!(parse_u64("+"), None);
}

#[test]
fn decimal_round_trip() {
    for n in [0u64, 9, 10, 65535, 165202235226062848, u64::MAX] {
        assert_eq!(parse_u64(&u64_to_decimal(n)), Some(n));
    }
}

#[test]
fn char_removal() {
    assert_eq!(remove_char("<@!123>", '!'), "<@123>");
    assert_eq!(remove_char("\"title\"", '"'), "title");
    assert_eq!(remove_char("", 'x'), "");
}

#[test]
fn pattern_removal() {
    assert_eq!(remove_all_str("a```lua b```c`d", "```lua"), "a b```c`d");
    assert_eq!(remove_all_str("````", "```"), "`");
    assert_eq!(remove_all_str("abc", ""), "abc");
    assert_eq!(remove_all_str("aaa", "aa"), "a");
    let s = "x ```lua y ``` `z`";
    assert_eq!(remove_all_str(s, "```lua"), s.replace("```lua", ""));
}

#[test]
fn prefixes() {
    assert!(starts_with("!verify me", "!verify"));
    assert!(!starts_with("!veri", "!verify"));
    assert!(starts_with("anything", ""));
}

#[test]
fn joining() {
    let parts = vec!["a".to_string(), "b".to_string(), "c".to_string()];
    assert_eq!(join_strings(&parts, ", "), "a, b, c");
    assert_eq!(join_strings(&vec![], " "), "");
    assert_eq!(join_strings(&vec!["one".to_string()], " "), "one");
}

#[test]
fn byte_slices() {
    assert_eq!(byte_range("héllo", 1, 3), "é");
    assert!(slice_allowed("héllo", 1, 3));
    assert!(!slice_allowed("héllo", 1, 2));
    assert!(!slice_allowed("abc", 2, 4));
    assert!(!slice_allowed("abc", 2, 1));
    assert_eq!(byte_range("abcdef", 2, 5), "cde");
}

#[test]
fn chars_in_order() {
    assert_eq!(chars_of("aé🙂"), vec!['a', 'é', '🙂']);
}
