use oops::text::{byte_len, parse_i32, push_decimal, push_signed_decimal, str_eq};

#[test]
fn strings_are_compared_by_their_characters() {
    assert!(str_eq("", ""));
    assert!(str_eq("Object", "Object"));
    assert!(!str_eq("Object", "Objec"));
    assert!(!str_eq("Object", "object"));
    assert!(str_eq("é", "é"));
    assert!(!str_eq("é", "e"));
}

#[test]
fn numbers_are_written_in_decimal() {
    let mut out = String::from("at ");
    push_decimal(&mut out, 0);
    out.push(' ');
    push_decimal(&mut out, 7);
    out.push(' ');
    push_decimal(&mut out, 10);
    out.push(' ');
    push_decimal(&mut out, 120345);
    assert_eq!(out, "at 0 7 10 120345");

    let mut out = String::new();
    push_decimal(&mut out, usize::MAX);
    assert_eq!(out, usize::MAX.to_string());
}

#[test]
fn negative_numbers_are_written_with_a_sign() {
    for n in [0, 5, -5, 42, -120, i32::MAX, i32::MIN] {
        let mut out = String::new();
        push_signed_decimal(&mut out, n);
        assert_eq!(out, n.to_string());
    }
}

#[test]
fn digits_are_read_as_a_number() {
    assert_eq!(parse_i32("0"), Some(0));
    assert_eq!(parse_i32("007"), Some(7));
    assert_eq!(parse_i32("123"), Some(123));
    assert_eq!(parse_i32("2147483647"), Some(i32::MAX));
    assert_eq!(parse_i32("2147483648"), None);
    assert_eq!(parse_i32("99999999999999999999"), None);
    assert_eq!(parse_i32(""), None);
    assert_eq!(parse_i32("-1"), None);
    assert_eq!(parse_i32("12a"), None);
    assert_eq!(parse_i32("١٢"), None);
}

#[test]
fn length_is_counted_in_bytes() {
    assert_eq!(byte_len(""), 0);
    assert_eq!(byte_len("abc"), 3);
    assert_eq!(byte_len("é"), 2);
}
