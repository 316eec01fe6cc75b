use crate::token::TokenKind::{Empty, End, Eof, Other, Start, Text};
use quick_xml::events::Event;
use quick_xml::reader::Reader;
use vstd::prelude::*;

verus! {

/// What sort of markup a token stands for.
#[derive(Debug, Clone, Copy, PartialEq, Eq, Structural)]
pub enum TokenKind {
    /// An opening tag.
    Start,
    /// A self-closing tag.
    Empty,
    /// A closing tag.
    End,
    /// Character data between tags.
    Text,
    /// The end of the input.
    Eof,
    /// Anything else: comments, declarations, instructions, CDATA.
    Other,
}

/// One event of the tokenizer, held as plain values.
#[derive(Debug, Clone, PartialEq, Eq)]
pub struct Token {
    pub kind: TokenKind,
    /// The tag name of a `Start`, `Empty` or `End` token; empty otherwise.
    pub name: String,
    /// The attribute source of a `Start` or `Empty` token, the raw character
    /// data of a `Text` token; empty otherwise.
    pub body: String,
    /// The byte offset in the input just behind this token.
    pub end: usize,
}

/// The mathematical value of a [`Token`].
pub struct TokenView {
    pub kind: TokenKind,
    pub name: Seq<char>,
    pub body: Seq<char>,
    pub end: int,
}

impl View for Token {
    type V = TokenView;

    open spec fn view(&self) -> TokenView {
        TokenView { kind: self.kind, name: self.name@, body: self.body@, end: self.end as int }
    }
}

/// `quick_xml::reader::Reader`: the tokenizer, carried as it is. Nothing is
/// known of what is inside it.
#[verifier::external_type_specification]
#[verifier::external_body]
#[verifier::reject_recursive_types(R)]
pub struct ExReader<R>(Reader<R>);

/// The tokens that `quick_xml` reads from a text, in order: up to the `Eof`
/// token with which it answers at the end of the text, or up to the place
/// where it fails, if it fails before the end.
pub uninterp spec fn xml_tokens(text: Seq<char>) -> Seq<TokenView>;

/// The tokens that a reader has yet to deliver, in order: up to its first
/// `Eof` token, or up to the place where it fails, if it fails first.
pub uninterp spec fn upcoming(reader: Reader<&[u8]>) -> Seq<TokenView>;

/// `Reader::from_str`: a reader at the start of `text`, which will deliver
/// the tokens of `text`.
#[verifier::external_body]
fn open_reader<'a>(text: &'a str) -> (reader: Reader<&'a [u8]>)
    ensures
        upcoming(reader) == xml_tokens(text@),
{
    Reader::from_str(text)
}

/// `Reader::read_event` and `Reader::buffer_position`: the next token, taken
/// off the front of what the reader had yet to deliver, with the offset that
/// the reader has reached; `None` where the reader fails. Nothing is claimed
/// of the reader behind an `Eof` token or a failure.
#[verifier::external_body]
fn read_token(reader: &mut Reader<&[u8]>) -> (res: Option<Token>)
    ensures
        match res {
            Some(t) => {
                &&& upcoming(*old(reader)).len() > 0
                &&& t@ == upcoming(*old(reader))[0]
                &&& t.kind != TokenKind::Eof ==> upcoming(*final(reader)) == upcoming(
                    *old(reader),
                ).skip(1)
            },
            None => upcoming(*old(reader)).len() == 0,
        },
{
    let event = reader.read_event().ok()?;
    let none: &[u8] = &[];
    let (kind, name, body) = match &event {
        Event::Start(e) => (Start, e.name().0, e.attributes_raw()),
        Event::Empty(e) => (Empty, e.name().0, e.attributes_raw()),
        Event::End(e) => (End, e.name().0, none),
        Event::Text(e) => (Text, none, &e[..]),
        Event::Eof => (Eof, none, none),
        _ => (Other, none, none),
    };
    let name = String::from_utf8_lossy(name).into_owned();
    let body = String::from_utf8_lossy(body).into_owned();
    Some(Token { kind, name, body, end: reader.buffer_position() })
}

/// The mathematical value of a run of tokens.
pub open spec fn tokens_view(tokens: Seq<Token>) -> Seq<TokenView> {
    Seq::new(tokens.len(), |k: int| tokens[k]@)
}

/// The place of the first `Eof` token, or the length of the run where it
/// holds none.
pub open spec fn eof_index(tokens: Seq<TokenView>) -> int
    decreases tokens.len(),
{
    if tokens.len() == 0 || tokens[0].kind == TokenKind::Eof {
        0
    } else {
        1 + eof_index(tokens.drop_first())
    }
}

/// The tokens of a document: all that the tokenizer reads from `text` up to
/// the first `Eof`, which is the last of them. `None` where the tokenizer
/// fails before it reaches the end of the text.
pub open spec fn document_tokens(text: Seq<char>) -> Option<Seq<TokenView>> {
    let all = xml_tokens(text);
    let end = eof_index(all);
    if end < all.len() {
        Some(all.take(end + 1))
    } else {
        None
    }
}

/// Whether a run of tokens closes with its only `Eof` token.
pub open spec fn is_closed(tokens: Seq<TokenView>) -> bool {
    &&& tokens.len() > 0
    &&& tokens.last().kind == TokenKind::Eof
    &&& forall|k: int| 0 <= k < tokens.len() - 1 ==> (#[trigger] tokens[k]).kind != TokenKind::Eof
}

proof fn lemma_eof_index(tokens: Seq<TokenView>, end: int)
    requires
        0 <= end <= tokens.len(),
        forall|k: int| 0 <= k < end ==> (#[trigger] tokens[k]).kind != TokenKind::Eof,
        end < tokens.len() ==> tokens[end].kind == TokenKind::Eof,
    ensures
        eof_index(tokens) == end,
    decreases end,
{
    if end > 0 {
        let rest = tokens.drop_first();
        lemma_eof_index(rest, end - 1);
    }
}

/// The mathematical value of the outcome of tokenizing.
pub open spec fn tokens_outcome(res: Option<Vec<Token>>) -> Option<Seq<TokenView>> {
    match res {
        Some(tokens) => Some(tokens_view(tokens@)),
        None => None,
    }
}

/// Reads `text` into tokens, up to the `Eof` token that closes them. `None`
/// where the tokenizer fails before the end of the text.
///
/// The tokenizer passes over one byte-order mark in front of the text
/// without counting it, so the offsets of the tokens are offsets into the
/// text behind that mark; see [`crate::text::strip_bom`].
pub fn tokenize(text: &str) -> (res: Option<Vec<Token>>)
    ensures
        tokens_outcome(res) == document_tokens(text@),
        res matches Some(tokens) ==> is_closed(tokens_view(tokens@)),
{
    let mut reader = open_reader(text);
    let mut tokens: Vec<Token> = Vec::new();
    let ghost all = xml_tokens(text@);
    loop
        invariant
            all == xml_tokens(text@),
            tokens_view(tokens@) + upcoming(reader) == all,
            forall|k: int| 0 <= k < tokens.len() ==> (#[trigger] tokens[k]).kind != TokenKind::Eof,
        decreases upcoming(reader).len(),
    {
        let ghost read = tokens_view(tokens@);
        match read_token(&mut reader) {
            None => {
                proof {
                    lemma_eof_index(all, all.len() as int);
                }
                return None;
            },
            Some(token) => {
                let at_end = token.kind == TokenKind::Eof;
                tokens.push(token);
                if at_end {
                    proof {
                        lemma_eof_index(all, read.len() as int);
                    }
                    return Some(tokens);
                }
            },
        }
    }
}

} // verus!
