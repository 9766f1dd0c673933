use utils::trim_ascii_whitespace;

#[test]
fn trim_keeps_interior_whitespace() {
    assert_eq!(trim_ascii_whitespace(b"  ab c  "), b"ab c");
}

#[test]
fn trim_of_all_whitespace_is_empty() {
    assert_eq!(trim_ascii_whitespace(b" \t\n\r\x0c "), b"");
    assert_eq!(trim_ascii_whitespace(b" "), b"");
}

#[test]
fn trim_of_empty_is_empty() {
    assert_eq!(trim_ascii_whitespace(b""), b"");
}

#[test]
fn trim_without_whitespace_is_identity() {
    assert_eq!(trim_ascii_whitespace(b"abc"), b"abc");
}

#[test]
fn trim_leading_only() {
    assert_eq!(trim_ascii_whitespace(b"\t\nabc"), b"abc");
}

#[test]
fn trim_trailing_only() {
    assert_eq!(trim_ascii_whitespace(b"abc \r\n"), b"abc");
}

#[test]
fn trim_handles_every_whitespace_byte() {
    assert_eq!(trim_ascii_whitespace(b"\x09\x0a\x0c\x0d\x20x\x20\x0d\x0c\x0a\x09"), b"x");
}
