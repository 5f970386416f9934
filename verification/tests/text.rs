use flint::text::{hex, is_whitespace, parse_u64, push_hex_pad, split_lines, starts_with, trim, truncate, u64_to_dec};

#[test]
fn trim_removes_unicode_whitespace_at_both_ends() {
    assert_eq!(trim("  a b \n"), "a b");
    assert_eq!(trim("\t\u{3000}x\u{a0}"), "x");
    assert_eq!(trim("   "), "");
    assert_eq!(trim(""), "");
    assert!(is_whitespace('\u{2028}'));
    assert!(!is_whitespace('x'));
}

#[test]
fn starts_with_compares_characters() {
    assert!(starts_with("data: x", "data:"));
    assert!(starts_with("abc", ""));
    assert!(!starts_with("da", "data"));
    assert!(!starts_with("event: x", "data:"));
}

#[test]
fn truncate_marks_a_cut_with_an_ellipsis() {
    assert_eq!(truncate("hello", 5), "hello");
    assert_eq!(truncate("hello!", 5), "hello…");
    assert_eq!(truncate("héllo wörld", 3), "hél…");
    assert_eq!(truncate("", 0), "");
    assert_eq!(truncate("a", 0), "…");
}

#[test]
fn split_lines_matches_str_lines() {
    for s in ["", "a", "a\n", "a\r\nb", "a\n\nb\n", "\n", "x\ry\n", "é\r\n"] {
        let expected: Vec<String> = s.lines().map(|l| l.to_string()).collect();
        assert_eq!(split_lines(s), expected, "input {s:?}");
    }
}

#[test]
fn decimal_rendering_and_parsing() {
    assert_eq!(u64_to_dec(0), "0");
    assert_eq!(u64_to_dec(11434), "11434");
    assert_eq!(u64_to_dec(u64::MAX), "18446744073709551615");
    assert_eq!(parse_u64("16"), Some(16));
    assert_eq!(parse_u64("18446744073709551615"), Some(u64::MAX));
    assert_eq!(parse_u64("18446744073709551616"), None);
    assert_eq!(parse_u64(""), None);
    assert_eq!(parse_u64("1a"), None);
    assert_eq!(parse_u64("-1"), None);
}

#[test]
fn hex_padding_and_bytes() {
    let mut s = String::from("id:");
    push_hex_pad(&mut s, 0xbeef, 8);
    assert_eq!(s, "id:0000beef");
    let mut t = String::new();
    push_hex_pad(&mut t, u64::MAX, 16);
    assert_eq!(t, "ffffffffffffffff");
    assert_eq!(hex(&[0x00, 0x0f, 0xa0, 0xff]), "000fa0ff");
    assert_eq!(hex(&[]), "");
}
