use conclave::text::{chars_of, parse_i64_chars, push_decimal, push_signed_decimal, string_of};

#[test]
fn decimal_numerals() {
    let mut s = String::new();
    push_decimal(&mut s, 0);
    push_decimal(&mut s, 1234567890);
    push_signed_decimal(&mut s, i64::MIN);
    assert_eq!(s, "01234567890-9223372036854775808");
}

#[test]
fn integer_parsing() {
    let p = |s: &str| parse_i64_chars(&chars_of(s));
    assert_eq!(p("42"), Some(42));
    assert_eq!(p("-42"), Some(-42));
    assert_eq!(p("+42"), Some(42));
    assert_eq!(p(""), None);
    assert_eq!(p("-"), None);
    assert_eq!(p("4 2"), None);
    assert_eq!(p("9223372036854775807"), Some(i64::MAX));
    assert_eq!(p("9223372036854775808"), None);
    assert_eq!(p("-9223372036854775809"), None);
    for s in ["0", "-0", "007", "+x", "12a"] {
        assert_eq!(p(s), s.parse::<i64>().ok());
    }
}

#[test]
fn chars_round_trip() {
    assert_eq!(string_of(&chars_of("héllo")), "héllo");
}

