use nitox::text::{
    append, bytes_eq, contains_byte, copy_text, find_byte, parse_decimal_field, push_byte,
    push_decimal, split_fields, text_eq,
};
use nitox::{ArgumentValidationError, CommandError, IntParseFault};

fn pieces<'a>(line: &'a [u8]) -> Vec<&'a [u8]> {
    split_fields(line).into_iter().map(|(from, to)| &line[from..to]).collect()
}

#[test]
fn fields_are_the_runs_between_spaces_and_tabs() {
    assert_eq!(pieces(b"PUB FOO 11"), vec![&b"PUB"[..], &b"FOO"[..], &b"11"[..]]);
    assert_eq!(pieces(b"PUB\tFOO\t11"), vec![&b"PUB"[..], &b"FOO"[..], &b"11"[..]]);
    assert_eq!(pieces(b"  a \t\t b\t "), vec![&b"a"[..], &b"b"[..]]);
    assert_eq!(pieces(b"one"), vec![&b"one"[..]]);
    assert_eq!(pieces(b""), Vec::<&[u8]>::new());
    assert_eq!(pieces(b" \t "), Vec::<&[u8]>::new());
    // other blanks are no separators
    assert_eq!(pieces(b"a\rb\nc\x0bd"), vec![&b"a\rb\nc\x0bd"[..]]);
}

#[test]
fn decimal_fields() {
    assert_eq!(parse_decimal_field(b"0", 10), Ok(0));
    assert_eq!(parse_decimal_field(b"10", 10), Ok(10));
    assert_eq!(parse_decimal_field(b"11", 10), Err(IntParseFault::Overflow));
    assert_eq!(parse_decimal_field(b"+7", 10), Ok(7));
    assert_eq!(parse_decimal_field(b"007", 10), Ok(7));
    assert_eq!(parse_decimal_field(b"", 10), Err(IntParseFault::Empty));
    assert_eq!(parse_decimal_field(b"+", 10), Err(IntParseFault::InvalidDigit));
    assert_eq!(parse_decimal_field(b"-1", 10), Err(IntParseFault::InvalidDigit));
    assert_eq!(parse_decimal_field(b"++1", 10), Err(IntParseFault::InvalidDigit));
    assert_eq!(parse_decimal_field(b"1 ", 10), Err(IntParseFault::InvalidDigit));
    assert_eq!(parse_decimal_field(b"0x10", 100), Err(IntParseFault::InvalidDigit));
    // a bad digit is reported before an overflow
    assert_eq!(parse_decimal_field(b"99999999999999999999999x", 10), Err(IntParseFault::InvalidDigit));
    assert_eq!(parse_decimal_field(b"18446744073709551615", u64::MAX), Ok(u64::MAX));
    assert_eq!(parse_decimal_field(b"18446744073709551616", u64::MAX), Err(IntParseFault::Overflow));
    assert_eq!(
        parse_decimal_field(b"000000000000000000000000000000000018446744073709551615", u64::MAX),
        Ok(u64::MAX)
    );
}

#[test]
fn decimal_writing() {
    for (n, text) in [
        (0u64, "0"),
        (9, "9"),
        (10, "10"),
        (11, "11"),
        (4222, "4222"),
        (1000000, "1000000"),
        (u64::MAX, "18446744073709551615"),
    ] {
        let mut out = b"n=".to_vec();
        push_decimal(&mut out, n);
        assert_eq!(out, format!("n={}", text).into_bytes());
        assert_eq!(parse_decimal_field(text.as_bytes(), u64::MAX), Ok(n));
    }
}

#[test]
fn byte_strings() {
    assert!(bytes_eq(b"", b""));
    assert!(bytes_eq(b"abc", b"abc"));
    assert!(!bytes_eq(b"abc", b"abd"));
    assert!(!bytes_eq(b"abc", b"ab"));
    assert!(contains_byte(b"a b", b' '));
    assert!(!contains_byte(b"ab", b' '));
    assert_eq!(find_byte(b"a\rb\r", 0, b'\r'), Some(1));
    assert_eq!(find_byte(b"a\rb\r", 1, b'\r'), Some(1));
    assert_eq!(find_byte(b"a\rb\r", 2, b'\r'), Some(3));
    assert_eq!(find_byte(b"a\rb\r", 4, b'\r'), None);
    assert_eq!(find_byte(b"", 0, b'\r'), None);
    let mut out = vec![1u8];
    append(&mut out, &[2, 3]);
    append(&mut out, &[]);
    push_byte(&mut out, 4);
    assert_eq!(out, vec![1, 2, 3, 4]);
}

#[test]
fn texts() {
    assert!(text_eq("", ""));
    assert!(text_eq("caf\u{e9}", "caf\u{e9}"));
    assert!(!text_eq("cafe", "caf\u{e9}"));
    assert_eq!(copy_text(&Some("x".to_string())), Some("x".to_string()));
    assert_eq!(copy_text(&None), None);
}

#[test]
fn command_errors_from_their_causes() {
    assert_eq!(
        CommandError::from(ArgumentValidationError::ContainsTab),
        CommandError::ValidationError(ArgumentValidationError::ContainsTab)
    );
    assert_eq!(
        CommandError::from("words".to_string()),
        CommandError::GenericError("words".to_string())
    );
}
