use luar::error::LexErrorKind;
use luar::scanner::Scanner;

fn scan_to_error(code: &str) -> luar::error::LexError {
    let mut scanner = Scanner::read_source(code);
    loop {
        match scanner.next_token() {
            Ok(Some(_)) => {}
            Ok(None) => panic!("expected a scan failure"),
            Err(e) => return e,
        }
    }
}

#[test]
fn test_unexpected_character() {
    let e = scan_to_error("abc @");
    assert_eq!(e.kind, LexErrorKind::UnexpectedCharacter);
    assert_eq!((e.line, e.col), (1, 5));
    assert_eq!(e.partial, "@");
}

#[test]
fn test_unterminated_string_at_end() {
    let e = scan_to_error("\"abc");
    assert_eq!(e.kind, LexErrorKind::UnterminatedString);
    assert_eq!(e.partial, "abc");
}

#[test]
fn test_unterminated_string_newline() {
    let e = scan_to_error("'ab\ncd'");
    assert_eq!(e.kind, LexErrorKind::UnterminatedString);
    assert_eq!((e.line, e.col), (1, 4));
    assert_eq!(e.partial, "ab");
}

#[test]
fn test_unterminated_comment() {
    let e = scan_to_error("--[[ never closed ]=]");
    assert_eq!(e.kind, LexErrorKind::UnterminatedComment);
}

#[test]
fn test_unterminated_long_string() {
    let e = scan_to_error("[=[ still open ]] ]==]");
    assert_eq!(e.kind, LexErrorKind::UnterminatedLongString);
}

#[test]
fn test_invalid_long_string_delimiter() {
    let e = scan_to_error("[=abc");
    assert_eq!(e.kind, LexErrorKind::InvalidLongStringDelimiter);
    assert_eq!(e.partial, "a");
}

#[test]
fn test_invalid_block_comment_opening() {
    let e = scan_to_error("--[=abc");
    assert_eq!(e.kind, LexErrorKind::InvalidLongStringDelimiter);
}

#[test]
fn test_numeric_decode_mismatch() {
    // An exponent marker with no digits cannot agree with a standard parse
    // of the spelling.
    let e = scan_to_error("34e");
    assert_eq!(e.kind, LexErrorKind::NumericDecodeMismatch);
    assert_eq!(e.partial, "34e");
}

#[test]
fn test_numeric_decode_mismatch_signed() {
    let e = scan_to_error("1e-");
    assert_eq!(e.kind, LexErrorKind::NumericDecodeMismatch);
    assert_eq!(e.partial, "1e-");
}

#[test]
fn test_bare_bracket_is_separator() {
    // `[` not followed by `[` or `=` is an ordinary separator.
    let mut scanner = Scanner::read_source("[a]");
    assert_eq!(scanner.next_token().unwrap().unwrap().word(), "[");
    assert_eq!(scanner.next_token().unwrap().unwrap().word(), "a");
    assert_eq!(scanner.next_token().unwrap().unwrap().word(), "]");
}
