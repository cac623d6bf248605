use esp_live::text::{
    chars_of, clock_label, contains_chars, i64_text, is_white_space_char, str_contains, str_eq,
    str_lt, trim_text, u64_text, usize_text,
};

#[test]
fn decimal_rendering_matches_format() {
    assert_eq!(u64_text(0), "0");
    assert_eq!(u64_text(7), "7");
    assert_eq!(u64_text(1234), "1234");
    assert_eq!(u64_text(u64::MAX), u64::MAX.to_string());
    assert_eq!(usize_text(42), "42");
    assert_eq!(i64_text(-5), "-5");
    assert_eq!(i64_text(0), "0");
    assert_eq!(i64_text(i64::MIN), "-9223372036854775808");
    assert_eq!(i64_text(i64::MAX), "9223372036854775807");
}

#[test]
fn clock_label_pads_seconds() {
    assert_eq!(clock_label(187), "3:07");
    assert_eq!(clock_label(0), "0:00");
    assert_eq!(clock_label(59), "0:59");
    assert_eq!(clock_label(3600), "60:00");
    assert_eq!(clock_label(2405), "40:05");
}

#[test]
fn clock_label_of_negative_counts_truncates() {
    assert_eq!(clock_label(-61), format!("{}:{:02}", -61i64 / 60, -61i64 % 60));
    assert_eq!(clock_label(-61), "-1:-1");
    assert_eq!(clock_label(-5), "0:-5");
    assert_eq!(clock_label(i64::MIN), format!("{}:{:02}", i64::MIN / 60, i64::MIN % 60));
}

#[test]
fn substring_search() {
    assert!(str_contains("team navi", "navi"));
    assert!(str_contains("navi", ""));
    assert!(str_contains("", ""));
    assert!(!str_contains("", "a"));
    assert!(!str_contains("nav", "navi"));
    assert!(str_contains("abcabd", "abd"));
    assert!(!str_contains("abcabd", "abe"));
    let h = chars_of("héllo wörld");
    let n = chars_of("wö");
    assert!(contains_chars(&h, &n));
    assert_eq!(chars_of("héllo").len(), 5);
}

#[test]
fn trimming_removes_unicode_white_space() {
    assert_eq!(trim_text("  navi \t"), "navi");
    assert_eq!(trim_text("\u{3000}og\u{00A0}"), "og");
    assert_eq!(trim_text("   "), "");
    assert_eq!(trim_text(""), "");
    assert_eq!(trim_text("a b"), "a b");
    assert!(is_white_space_char('\n'));
    assert!(is_white_space_char('\u{2028}'));
    assert!(!is_white_space_char('x'));
    for c in ['\t', ' ', '\u{85}', '\u{1680}', '\u{2000}', '\u{200A}', '\u{202F}', '\u{205F}', 'a', '\u{200B}'] {
        assert_eq!(is_white_space_char(c), c.is_whitespace());
    }
}

#[test]
fn lexicographic_order_matches_str_order() {
    let words = ["", "a", "Alliance", "Navi", "navi", "Team Spirit", "Team", "Ωmega", "Éclair"];
    for a in words {
        for b in words {
            assert_eq!(str_lt(a, b), a < b, "{a:?} < {b:?}");
            assert_eq!(str_eq(a, b), a == b);
        }
    }
}
