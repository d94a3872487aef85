use ddnet_core::escape::{escape, unescape, UnescapeError};

#[test]
fn escape_plain_is_borrowed() {
    let r = escape("abc");
    assert_eq!(r, "abc");
    assert!(matches!(r, std::borrow::Cow::Borrowed(_)));
}

#[test]
fn escape_empty() {
    assert_eq!(escape(""), "");
}

#[test]
fn escape_space_quotes() {
    assert_eq!(escape("a b"), "\"a b\"");
}

#[test]
fn escape_quote_and_backslash() {
    assert_eq!(escape("a\"b"), "\"a\\\"b\"");
    assert_eq!(escape("a\\b"), "\"a\\\\b\"");
    assert_eq!(escape("x \" \\"), "\"x \\\" \\\\\"");
}

#[test]
fn unescape_roundtrip() {
    for s in ["", "abc", "a b", "a\"b", "a\\b", "say \"hi\" \\o/", "ümlaut ß"] {
        assert_eq!(unescape(&escape(s)).unwrap(), s);
    }
}

#[test]
fn unescape_unquoted_text() {
    assert_eq!(unescape("abc").unwrap(), "abc");
    assert_eq!(unescape("a\"b c\"d").unwrap(), "ab cd");
    assert_eq!(unescape("\"a\\ b\"").unwrap(), "a b");
    // outside quotes a backslash is kept as is
    assert_eq!(unescape("a\\b").unwrap(), "a\\b");
}

#[test]
fn unescape_trailing_backslash() {
    let err = unescape("\"abc\\").unwrap_err();
    assert_eq!(
        err,
        UnescapeError::InvalidEscape {
            escape: "\\".to_string(),
            index: 4,
            string: "\"abc\\".to_string(),
        }
    );
}

#[test]
fn unescape_invalid_escape() {
    let err = unescape("\"a\\xb\"").unwrap_err();
    assert_eq!(
        err,
        UnescapeError::InvalidEscape {
            escape: "\\x".to_string(),
            index: 3,
            string: "\"a\\xb\"".to_string(),
        }
    );
}

#[test]
fn text_without_backslash_always_unescapes() {
    assert_eq!(unescape("\"a b\" c\"d").unwrap(), "a b cd");
    assert!(unescape("plain text").is_ok());
}
