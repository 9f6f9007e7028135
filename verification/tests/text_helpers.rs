use lcp_sql_fetch::text::{
    append_decimal, append_signed_decimal, chars_of, contains_chars, ends_with_chars,
    is_whitespace, starts_with_chars, string_from_chars, trim_chars,
};

fn cs(s: &str) -> Vec<char> {
    s.chars().collect()
}

#[test]
fn whitespace_class_matches_std() {
    for u in 0u32..0x3100 {
        if let Some(c) = char::from_u32(u) {
            assert_eq!(is_whitespace(c), c.is_whitespace(), "U+{:04X}", u);
        }
    }
}

#[test]
fn substring_tests() {
    assert!(contains_chars(&cs("SELECT UPDATE"), &cs("UPDATE")));
    assert!(!contains_chars(&cs("UPDAT"), &cs("UPDATE")));
    assert!(contains_chars(&cs("abc"), &cs("")));
    assert!(starts_with_chars(&cs("liferay-1"), &cs("liferay")));
    assert!(!starts_with_chars(&cs("life"), &cs("liferay")));
    assert!(ends_with_chars(&cs("acme-prd"), &cs("-prd")));
    assert!(!ends_with_chars(&cs("acme-prdx"), &cs("-prd")));
}

#[test]
fn trimming_matches_std() {
    for s in ["", "  ", " a ", "\u{2028}x y\u{85}", "tok\r\n", "a"] {
        assert_eq!(string_from_chars(&trim_chars(&cs(s))), s.trim());
    }
}

#[test]
fn decimal_rendering() {
    let mut s = String::new();
    append_decimal(&mut s, 0);
    append_decimal(&mut s, 907);
    assert_eq!(s, "0907");
    let mut t = String::new();
    append_signed_decimal(&mut t, -42);
    assert_eq!(t, "-42");
    let mut u = String::new();
    append_decimal(&mut u, u64::MAX);
    assert_eq!(u, u64::MAX.to_string());
}

#[test]
fn chars_round_trip() {
    assert_eq!(string_from_chars(&chars_of("héllo")), "héllo");
}
