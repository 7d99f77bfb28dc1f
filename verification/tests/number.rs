use jsonlex::error;
use jsonlex::slicelexer::digits;
use jsonlex::{Lexer, NumParts, Offset, Read, SliceLexer};

/// Scans `input` and returns the number's bytes, its parts and how many bytes were read.
fn scan(input: &[u8]) -> Result<(&[u8], NumParts, usize), error::Num> {
    let mut lexer = SliceLexer::new(input);
    let mut bytes: &[u8] = &[];
    let parts = lexer.num_bytes(&mut bytes)?;
    Ok((bytes, parts, lexer.offset_from(&input)))
}

fn parts(dot: Option<usize>, exp: Option<usize>) -> NumParts {
    NumParts { dot, exp }
}

fn whole(text: &[u8], dot: Option<usize>, exp: Option<usize>) {
    assert_eq!(scan(text), Ok((text, parts(dot, exp), text.len())));
    for follow in [b' ', b',', b']', b'}', b'\n', b'x', b'"', 0u8, 0xffu8] {
        let mut input = text.to_vec();
        input.push(follow);
        input.extend_from_slice(b"12");
        assert_eq!(scan(&input), Ok((text, parts(dot, exp), text.len())));
    }
}

#[test]
fn negative_zero() {
    assert_eq!(scan(b"-0"), Ok((b"-0" as &[u8], parts(None, None), 2)));
}

#[test]
fn fraction_and_exponent() {
    assert_eq!(scan(b"1.5e-10"), Ok((b"1.5e-10" as &[u8], parts(Some(1), Some(3)), 7)));
}

#[test]
fn dangling_dot_fails() {
    assert_eq!(scan(b"1."), Err(error::Num::ExpectedDigit));
    assert_eq!(scan(b"1.x"), Err(error::Num::ExpectedDigit));
    assert_eq!(scan(b"1.e5"), Err(error::Num::ExpectedDigit));
}

#[test]
fn zero_stops_after_one_digit() {
    assert_eq!(scan(b"0"), Ok((b"0" as &[u8], parts(None, None), 1)));
}

#[test]
fn leading_zero_ends_the_number() {
    let input = b"0123" as &[u8];
    let mut lexer = SliceLexer::new(input);
    let mut bytes: &[u8] = &[];
    assert_eq!(lexer.num_bytes(&mut bytes), Ok(parts(None, None)));
    assert_eq!(bytes, b"0");
    assert_eq!(lexer.offset_from(&input), 1);
    assert_eq!(lexer.peek_byte(), Some(&b'1'));
    assert_eq!(scan(b"-0123"), Ok((b"-0" as &[u8], parts(None, None), 2)));
    assert_eq!(scan(b"00"), Ok((b"0" as &[u8], parts(None, None), 1)));
}

#[test]
fn zero_with_fraction_or_exponent() {
    whole(b"0.5", Some(1), None);
    whole(b"0e0", None, Some(1));
    whole(b"-0.0E+0", Some(2), Some(4));
}

#[test]
fn numbers_are_taken_whole() {
    whole(b"7", None, None);
    whole(b"42", None, None);
    whole(b"-1", None, None);
    whole(b"1234567890", None, None);
    whole(b"3.14", Some(1), None);
    whole(b"-12.5", Some(3), None);
    whole(b"1e5", None, Some(1));
    whole(b"1E5", None, Some(1));
    whole(b"1e+5", None, Some(1));
    whole(b"1e-5", None, Some(1));
    whole(b"10E007", None, Some(2));
    whole(b"1.5e-10", Some(1), Some(3));
    whole(b"-123.456E+789", Some(4), Some(8));
}

#[test]
fn marks_are_in_order() {
    for text in [b"1.5e-10" as &[u8], b"-0.0E+0", b"12.5", b"9e9", b"100"] {
        let (bytes, parts, read) = scan(text).unwrap();
        assert_eq!(read, bytes.len());
        if let Some(dot) = parts.dot {
            assert!(0 < dot && dot < bytes.len() - 1);
            assert_eq!(bytes[dot], b'.');
        }
        if let Some(exp) = parts.exp {
            assert!(0 < exp && exp < bytes.len() - 1);
            assert!(bytes[exp] == b'e' || bytes[exp] == b'E');
        }
        if let (Some(dot), Some(exp)) = (parts.dot, parts.exp) {
            assert!(dot + 1 < exp);
        }
        assert!(bytes.iter().all(|b| b"-+.eE0123456789".contains(b)));
    }
}

#[test]
fn no_fraction_after_exponent() {
    assert_eq!(scan(b"1e5.2"), Ok((b"1e5" as &[u8], parts(None, Some(1)), 3)));
}

#[test]
fn second_dot_or_exponent_ends_the_number() {
    assert_eq!(scan(b"1.2.3"), Ok((b"1.2" as &[u8], parts(Some(1), None), 3)));
    assert_eq!(scan(b"1e2e3"), Ok((b"1e2" as &[u8], parts(None, Some(1)), 3)));
    assert_eq!(scan(b"1.2e3e4"), Ok((b"1.2e3" as &[u8], parts(Some(1), Some(3)), 5)));
    assert_eq!(scan(b"1.2e3.4"), Ok((b"1.2e3" as &[u8], parts(Some(1), Some(3)), 5)));
}

#[test]
fn sign_ends_a_number() {
    assert_eq!(scan(b"1-2"), Ok((b"1" as &[u8], parts(None, None), 1)));
    assert_eq!(scan(b"1+2"), Ok((b"1" as &[u8], parts(None, None), 1)));
    assert_eq!(scan(b"1e2-3"), Ok((b"1e2" as &[u8], parts(None, Some(1)), 3)));
}

#[test]
fn missing_integer_digits() {
    assert_eq!(scan(b"-"), Err(error::Num::ExpectedDigit));
    assert_eq!(scan(b"-x"), Err(error::Num::ExpectedDigit));
    assert_eq!(scan(b"--1"), Err(error::Num::ExpectedDigit));
    assert_eq!(scan(b".5"), Err(error::Num::ExpectedDigit));
    assert_eq!(scan(b"-.5"), Err(error::Num::ExpectedDigit));
    assert_eq!(scan(b"e5"), Err(error::Num::ExpectedDigit));
    assert_eq!(scan(b"+1"), Err(error::Num::ExpectedDigit));
    assert_eq!(scan(b"x"), Err(error::Num::ExpectedDigit));
}

#[test]
fn missing_exponent_digits() {
    assert_eq!(scan(b"1e"), Err(error::Num::ExpectedDigit));
    assert_eq!(scan(b"1E"), Err(error::Num::ExpectedDigit));
    assert_eq!(scan(b"1e+"), Err(error::Num::ExpectedDigit));
    assert_eq!(scan(b"1e-"), Err(error::Num::ExpectedDigit));
    assert_eq!(scan(b"1e+-1"), Err(error::Num::ExpectedDigit));
    assert_eq!(scan(b"1ex"), Err(error::Num::ExpectedDigit));
    assert_eq!(scan(b"1.5e"), Err(error::Num::ExpectedDigit));
    assert_eq!(scan(b"0e"), Err(error::Num::ExpectedDigit));
}

#[test]
fn failure_reads_nothing() {
    for input in [b"1." as &[u8], b"-", b"1e+", b"12.5e-x", b"x"] {
        let mut lexer = SliceLexer::new(input);
        let mut bytes: &[u8] = b"kept";
        assert_eq!(lexer.num_bytes(&mut bytes), Err(error::Num::ExpectedDigit));
        assert_eq!(bytes, b"kept");
        assert_eq!(lexer.offset_from(&input), 0);
    }
}

#[test]
fn number_in_the_middle_of_input() {
    let input = b"[12.5, 3]" as &[u8];
    let mut lexer = SliceLexer::new(input);
    assert_eq!(lexer.read_byte(), Some(b'['));
    let mut bytes: &[u8] = &[];
    assert_eq!(lexer.num_bytes(&mut bytes), Ok(parts(Some(2), None)));
    assert_eq!(bytes, b"12.5");
    assert_eq!(lexer.offset_from(&input), 5);
    assert_eq!(lexer.read_byte(), Some(b','));
}

#[test]
fn number_span_borrows_from_input() {
    let input = b"125 " as &[u8];
    let mut lexer = SliceLexer::new(input);
    let mut bytes: &[u8] = &[];
    assert_eq!(lexer.num_bytes(&mut bytes), Ok(parts(None, None)));
    assert_eq!(bytes.as_ptr(), input.as_ptr());
    assert_eq!(bytes.len(), 3);
}

#[test]
fn num_string_gives_the_text() {
    let input = b"1.5e-10," as &[u8];
    let mut lexer = SliceLexer::new(input);
    assert_eq!(lexer.num_string(), Ok(("1.5e-10", parts(Some(1), Some(3)))));
    assert_eq!(lexer.offset_from(&input), 7);
    assert_eq!(lexer.peek_byte(), Some(&b','));
}

#[test]
fn num_string_of_integer() {
    let input = b"-0" as &[u8];
    let mut lexer = SliceLexer::new(input);
    assert_eq!(lexer.num_string(), Ok(("-0", parts(None, None))));
    assert_eq!(lexer.offset_from(&input), 2);
}

#[test]
fn num_string_failure_reads_nothing() {
    let input = b"1." as &[u8];
    let mut lexer = SliceLexer::new(input);
    assert_eq!(lexer.num_string(), Err(error::Num::ExpectedDigit));
    assert_eq!(lexer.offset_from(&input), 0);
}

#[test]
fn num_string_text_borrows_from_input() {
    let input = b"42]" as &[u8];
    let mut lexer = SliceLexer::new(input);
    let (text, _) = lexer.num_string().unwrap();
    assert_eq!(text.as_ptr(), input.as_ptr());
    assert_eq!(text.len(), 2);
}

#[test]
fn default_parts_are_those_of_an_integer() {
    assert_eq!(NumParts::default(), parts(None, None));
}

#[test]
fn digits_counts_leading_digits() {
    assert_eq!(digits(b""), 0);
    assert_eq!(digits(b"x1"), 0);
    assert_eq!(digits(b"-1"), 0);
    assert_eq!(digits(b"0"), 1);
    assert_eq!(digits(b"0123456789"), 10);
    assert_eq!(digits(b"12a34"), 2);
    assert_eq!(digits(b"9/"), 1);
    assert_eq!(digits(b"9:"), 1);
    assert_eq!(digits(b"/9"), 0);
    assert_eq!(digits(b":9"), 0);
}
