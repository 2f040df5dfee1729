//! The money parser, the substring extractor and the text helpers.
use wishlist::error::Error;
use wishlist::strutil::{percentEncode, trimSpaces};
use wishlist::utils::{findSubStr, parsePrice};

#[test]
fn parse_price_whole_units() {
    assert_eq!(parsePrice("15").unwrap(), 1500);
    assert_eq!(parsePrice("0").unwrap(), 0);
    assert_eq!(parsePrice("1000").unwrap(), 100000);
}

#[test]
fn parse_price_one_separator() {
    assert_eq!(parsePrice("39.99").unwrap(), 3999);
    assert_eq!(parsePrice("15.5").unwrap(), 155);
    assert_eq!(parsePrice("0.99").unwrap(), 99);
}

#[test]
fn parse_price_rejects_two_separators() {
    assert!(matches!(parsePrice("12.34.56"), Err(Error::ParseError(_))));
}

#[test]
fn parse_price_rejects_garbage() {
    assert!(matches!(parsePrice(""), Err(Error::ParseError(_))));
    assert!(matches!(parsePrice("."), Err(Error::ParseError(_))));
    assert!(matches!(parsePrice("12a"), Err(Error::ParseError(_))));
    assert!(matches!(parsePrice("-5"), Err(Error::ParseError(_))));
    assert!(matches!(parsePrice("1 5"), Err(Error::ParseError(_))));
}

#[test]
fn parse_price_rejects_overflow() {
    // Fits an i64 as digits, but not once multiplied into cents.
    assert!(matches!(parsePrice("9223372036854775807"), Err(Error::ParseError(_))));
    // Does not fit an i64 at all.
    assert!(matches!(parsePrice("92233720368547758080"), Err(Error::ParseError(_))));
}

#[test]
fn find_substring_basic() {
    let (body, start, stop) = findSubStr("a[hello]b", "[", "]").unwrap();
    assert_eq!(body, "hello");
    assert_eq!(start, 2);
    assert_eq!(stop, 7);
}

#[test]
fn find_substring_takes_first_occurrence() {
    let (body, _, _) = findSubStr("x<a>y<b>z", "<", ">").unwrap();
    assert_eq!(body, "a");
}

#[test]
fn trim_removes_surrounding_whitespace() {
    assert_eq!(trimSpaces("  a b \n\t"), "a b");
    assert_eq!(trimSpaces("ab"), "ab");
    assert_eq!(trimSpaces("   "), "");
    assert_eq!(trimSpaces(""), "");
}

#[test]
fn percent_encoding_for_query_values() {
    assert_eq!(percentEncode("70010000012345"), b"70010000012345");
    assert_eq!(percentEncode("Abz09-._~"), b"Abz09-._~");
    assert_eq!(percentEncode("a b/c&d=e"), b"a%20b%2Fc%26d%3De");
    assert_eq!(percentEncode("\u{00FC}"), b"%C3%BC");
    assert_eq!(percentEncode(""), b"");
}

#[test]
fn find_substring_missing_markers() {
    assert!(findSubStr("abc", "[", "]").is_none());
    assert!(findSubStr("a[bc", "[", "]").is_none());
    assert!(findSubStr("a]b[c", "[", "]").is_none());
}
