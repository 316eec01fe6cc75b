use transfiles::error::ParseError;
use transfiles::text::{
    contains_angle_bracket, decimal_text, str_eq, strip_bom, text_between, unescape_or_empty,
};
use transfiles::token::{tokenize, Token, TokenKind};

fn token(kind: TokenKind, name: &str, body: &str, end: usize) -> Token {
    Token { kind, name: name.to_string(), body: body.to_string(), end }
}

#[test]
fn tokens_of_a_small_document() {
    let tokens = tokenize("<a x=\"1\">t &amp; u</a><b/>").unwrap();
    assert_eq!(
        tokens,
        vec![
            token(TokenKind::Start, "a", " x=\"1\"", 9),
            token(TokenKind::Text, "", "t &amp; u", 18),
            token(TokenKind::End, "a", "", 22),
            token(TokenKind::Empty, "b", "", 26),
            token(TokenKind::Eof, "", "", 26),
        ]
    );
}

#[test]
fn tokens_of_the_empty_text() {
    assert_eq!(tokenize("").unwrap(), vec![token(TokenKind::Eof, "", "", 0)]);
}

#[test]
fn comments_and_declarations_are_other_tokens() {
    let tokens = tokenize("<?xml version=\"1.0\"?><!-- note --><![CDATA[raw]]><a/>").unwrap();
    let kinds: Vec<TokenKind> = tokens.iter().map(|t| t.kind).collect();
    assert_eq!(
        kinds,
        vec![
            TokenKind::Other,
            TokenKind::Other,
            TokenKind::Other,
            TokenKind::Empty,
            TokenKind::Eof
        ]
    );
}

#[test]
fn a_closing_tag_that_does_not_match_fails() {
    assert_eq!(tokenize("<a>text</b>"), None);
}

#[test]
fn a_tag_that_is_cut_off_fails() {
    assert_eq!(tokenize("<a>text<b"), None);
    assert_eq!(tokenize("<a>text<!-- note"), None);
}

#[test]
fn an_element_left_open_is_no_failure() {
    let tokens = tokenize("<a>text").unwrap();
    assert_eq!(tokens.len(), 3);
    assert_eq!(tokens[2].kind, TokenKind::Eof);
}

#[test]
fn one_byte_order_mark_is_dropped_in_front() {
    assert_eq!(strip_bom("\u{feff}<a/>"), "<a/>");
    assert_eq!(strip_bom("\u{feff}\u{feff}x"), "\u{feff}x");
    assert_eq!(strip_bom("x\u{feff}"), "x\u{feff}");
    assert_eq!(strip_bom(""), "");
    assert_eq!(strip_bom("\u{feff}"), "");
}

#[test]
fn text_between_byte_offsets() {
    assert_eq!(text_between("hello world", 6, 11), "world");
    assert_eq!(text_between("hello", 0, 0), "");
    assert_eq!(text_between("hello", 0, 5), "hello");
    // "é" takes two bytes
    assert_eq!(text_between("aéb", 1, 3), "é");
    assert_eq!(text_between("aéb", 3, 4), "b");
}

#[test]
fn offsets_that_bound_no_text_give_nothing() {
    assert_eq!(text_between("hello", 3, 2), "");
    assert_eq!(text_between("hello", 2, 6), "");
    assert_eq!(text_between("hello", 9, 9), "");
    // inside the two bytes of "é"
    assert_eq!(text_between("aéb", 2, 3), "");
    assert_eq!(text_between("aéb", 1, 2), "");
}

#[test]
fn angle_brackets_are_found() {
    assert!(contains_angle_bracket("a < b"));
    assert!(contains_angle_bracket("a > b"));
    assert!(contains_angle_bracket("<g>x</g>"));
    assert!(!contains_angle_bracket("a &lt; b"));
    assert!(!contains_angle_bracket(""));
}

#[test]
fn strings_are_compared_by_their_characters() {
    assert!(str_eq("seg", "seg"));
    assert!(str_eq("", ""));
    assert!(!str_eq("seg", "Seg"));
    assert!(!str_eq("seg", "segment"));
    assert!(!str_eq("é", "e"));
}

#[test]
fn escapes_are_resolved() {
    assert_eq!(unescape_or_empty("a &amp; b &lt;c&gt; &#65;&#x42;"), "a & b <c> AB");
    assert_eq!(unescape_or_empty("plain"), "plain");
}

#[test]
fn an_escape_that_cannot_be_resolved_gives_the_empty_text() {
    assert_eq!(unescape_or_empty("a &bogus; b"), "");
    assert_eq!(unescape_or_empty("a & b"), "");
}

#[test]
fn numbers_in_decimal_digits() {
    assert_eq!(decimal_text(0), "0");
    assert_eq!(decimal_text(7), "7");
    assert_eq!(decimal_text(10), "10");
    assert_eq!(decimal_text(1234567890), "1234567890");
    assert_eq!(decimal_text(usize::MAX), usize::MAX.to_string());
}

#[test]
fn every_error_has_its_words() {
    let errors = [
        ParseError::Malformed,
        ParseError::BrokenAttribute,
        ParseError::MissingAttribute,
        ParseError::UnclosedElement,
        ParseError::TooManyUnits,
        ParseError::MissingHeader,
        ParseError::MissingEntry,
        ParseError::UnsupportedExtension,
        ParseError::WrongInput,
    ];
    for (i, a) in errors.iter().enumerate() {
        assert!(!a.message().is_empty());
        for b in &errors[i + 1..] {
            assert_ne!(a.message(), b.message());
        }
    }
    assert_eq!(ParseError::UnsupportedExtension.message(), "Unsupported file type");
}
