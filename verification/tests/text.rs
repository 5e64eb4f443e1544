use pingora_waf::text::{
    chars_of, eq_ignore_case, find_char, is_space_char, lower_char, push_decimal, range_eq,
    starts_with, str_eq, string_of, to_lower, to_upper, trim_bounds, upper_char,
};

#[test]
fn chars_round_trip() {
    let v = chars_of("héllo");
    assert_eq!(v, vec!['h', 'é', 'l', 'l', 'o']);
    assert_eq!(string_of(&v, 0, v.len()), "héllo");
    assert_eq!(string_of(&v, 1, 3), "él");
    assert_eq!(string_of(&v, 2, 2), "");
}

#[test]
fn case_mapping_touches_ascii_letters_only() {
    assert_eq!(lower_char('A'), 'a');
    assert_eq!(lower_char('Z'), 'z');
    assert_eq!(lower_char('['), '[');
    assert_eq!(lower_char('É'), 'É');
    assert_eq!(upper_char('a'), 'A');
    assert_eq!(upper_char('z'), 'Z');
    assert_eq!(upper_char('{'), '{');
    assert_eq!(to_lower("Host.Example.COM"), "host.example.com");
    assert_eq!(to_upper("post"), "POST");
    assert_eq!(to_upper("pAtCh-ü"), "PATCH-ü");
}

#[test]
fn comparison_up_to_case() {
    assert!(eq_ignore_case("Content-Type", "content-type"));
    assert!(!eq_ignore_case("Content-Type", "content-typo"));
    assert!(!eq_ignore_case("abc", "abcd"));
    assert!(eq_ignore_case("", ""));
    assert!(str_eq("abc", "abc"));
    assert!(!str_eq("abc", "abC"));
}

#[test]
fn prefixes() {
    assert!(starts_with("/admin/x", "/admin"));
    assert!(starts_with("/admin", ""));
    assert!(!starts_with("/adm", "/admin"));
    assert!(!starts_with("/Admin/x", "/admin"));
}

#[test]
fn ranges_and_search() {
    let a = chars_of("xxabcxx");
    let b = chars_of("abc");
    assert!(range_eq(&a, 2, &b, 0, 3));
    assert!(!range_eq(&a, 1, &b, 0, 3));
    assert_eq!(find_char(&a, 0, a.len(), 'b'), 3);
    assert_eq!(find_char(&a, 4, a.len(), 'b'), a.len());
}

#[test]
fn trimming() {
    let v = chars_of(" \t a b \u{a0}");
    let (from, to) = trim_bounds(&v, 0, v.len());
    assert_eq!(string_of(&v, from, to), "a b");
    let w = chars_of("   ");
    let (from, to) = trim_bounds(&w, 0, w.len());
    assert_eq!(from, to);
    assert!(is_space_char('\u{3000}'));
    assert!(!is_space_char('x'));
}

#[test]
fn decimal_digits() {
    let mut s = String::from("n=");
    push_decimal(&mut s, 0);
    s.push(',');
    push_decimal(&mut s, 429);
    s.push(',');
    push_decimal(&mut s, u64::MAX);
    assert_eq!(s, "n=0,429,18446744073709551615");
}
