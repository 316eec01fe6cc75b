use quick_xml::events::Event;
use quick_xml::name::QName;
use quick_xml::reader::Reader;
use transfiles::inline::find_closing;
use transfiles::text::text_between;
use transfiles::token::{tokenize, Token, TokenKind};

fn same_token(event: &Event, token: &Token) -> bool {
    match event {
        Event::Start(e) => token.kind == TokenKind::Start && e.name().0 == token.name.as_bytes(),
        Event::Empty(e) => token.kind == TokenKind::Empty && e.name().0 == token.name.as_bytes(),
        Event::End(e) => token.kind == TokenKind::End && e.name().0 == token.name.as_bytes(),
        Event::Text(e) => token.kind == TokenKind::Text && &e[..] == token.body.as_bytes(),
        Event::Eof => token.kind == TokenKind::Eof,
        _ => token.kind == TokenKind::Other,
    }
}

/// For every opening tag of `source`: the text up to the tag that closes it,
/// as the tokenizer itself reads it, is the text between the offsets of the
/// two tokens, and the tokenizer goes on with the token behind the closing
/// tag.
fn spans_agree(source: &str) {
    let tokens = tokenize(source).unwrap();
    for (at, token) in tokens.iter().enumerate() {
        if token.kind != TokenKind::Start {
            continue;
        }
        let mut reader = Reader::from_str(source);
        for before in &tokens[..=at] {
            assert!(same_token(&reader.read_event().unwrap(), before));
        }
        let close = find_closing(&tokens, &token.name, at + 1);
        match reader.read_text(QName(token.name.as_bytes())) {
            Ok(raw) => {
                assert_eq!(tokens[close].kind, TokenKind::End);
                assert_eq!(tokens[close].name, token.name);
                assert_eq!(text_between(source, token.end, tokens[close - 1].end), raw);
                assert!(same_token(&reader.read_event().unwrap(), &tokens[close + 1]));
            }
            Err(_) => {
                assert_eq!(tokens[close].kind, TokenKind::Eof);
                assert!(matches!(reader.read_event(), Ok(Event::Eof)));
            }
        }
        let mut skipper = Reader::from_str(source);
        for _ in 0..=at {
            skipper.read_event().unwrap();
        }
        match skipper.read_to_end(QName(token.name.as_bytes())) {
            Ok(_) => assert!(same_token(&skipper.read_event().unwrap(), &tokens[close + 1])),
            Err(_) => assert_eq!(tokens[close].kind, TokenKind::Eof),
        }
    }
}

#[test]
fn spans_of_plain_elements() {
    spans_agree("<a>one</a><b></b><c>two<d/>three</c>");
    spans_agree("<seg>Hello <g id=\"1\">world</g></seg>");
    spans_agree("text<a>b</a>text");
}

#[test]
fn spans_of_nested_elements_of_the_same_name() {
    spans_agree("<g>a<g>b<g/>c<g>d</g></g>e</g><g>f</g>");
    spans_agree("<a><a><a></a></a></a>");
}

#[test]
fn spans_with_comments_sections_and_declarations() {
    spans_agree("<?xml version=\"1.0\"?><!DOCTYPE a><a><!-- <b> --><![CDATA[</a>]]>x<?pi y?></a>");
    spans_agree("<a attr=\"1 > 0\">x > y</a>");
}

#[test]
fn spans_with_characters_of_several_bytes() {
    spans_agree("é<ü ö=\"ä\">日本語 &amp; <x/>ß</ü>›");
    spans_agree("<a>\u{feff}b</a>");
}

#[test]
fn spans_with_spaces_in_tags() {
    spans_agree("<a  x = '1' >b</a  ><c\n>d</c\n>");
}

#[test]
fn spans_of_elements_that_are_never_closed() {
    spans_agree("<a><b>c</b>");
    spans_agree("<a>b<c>d");
    spans_agree("<a>");
}

#[test]
fn spans_of_a_whole_document() {
    spans_agree(
        "<xliff version=\"1.2\">\n  <file source-language=\"en\" target-language=\"de\">\n    <body>\n\
         <trans-unit id=\"1\">\n<source>Press <bpt id=\"1\">&lt;b&gt;</bpt>Start<ept id=\"1\">&lt;/b&gt;</ept></source>\n\
         <alt-trans><source>old <g id=\"1\">source</g></source><target>alt</target></alt-trans>\n\
         <target>Drücken Sie <g id=\"1\"><g id=\"2\">Start</g><x id=\"3\"/></g></target>\n</trans-unit>\n\
         </body>\n  </file>\n</xliff>\n",
    );
}
