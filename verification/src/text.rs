use vstd::prelude::*;
use vstd::utf8::*;
use vstd::string::*;

verus! {

/// Whether two strings hold the same characters.
pub fn str_eq(a: &str, b: &str) -> (same: bool)
    ensures
        same == (a@ == b@),
{
    let x = a.as_bytes();
    let y = b.as_bytes();
    proof {
        encode_utf8_decode_utf8(a@);
        encode_utf8_decode_utf8(b@);
    }
    if x.len() != y.len() {
        return false;
    }
    let mut i: usize = 0;
    while i < x.len()
        invariant
            x@ == encode_utf8(a@),
            y@ == encode_utf8(b@),
            x.len() == y.len(),
            i <= x.len(),
            forall|k: int| 0 <= k < i ==> x@[k] == y@[k],
        decreases x.len() - i,
    {
        if x[i] != y[i] {
            return false;
        }
        i += 1;
    }
    assert(x@ =~= y@);
    true
}

/// Whether a character is `<` or `>`.
pub open spec fn is_angle_bracket(c: char) -> bool {
    c == '<' || c == '>'
}

/// Whether a text holds an angle bracket.
pub open spec fn has_angle_bracket(text: Seq<char>) -> bool {
    exists|k: int| 0 <= k < text.len() && is_angle_bracket(#[trigger] text[k])
}

proof fn lemma_angle_bracket_step(text: Seq<char>, n: int)
    requires
        0 <= n < text.len(),
    ensures
        has_angle_bracket(text.take(n + 1)) == (has_angle_bracket(text.take(n))
            || is_angle_bracket(text[n])),
{
    let shorter = text.take(n);
    let longer = text.take(n + 1);
    if has_angle_bracket(longer) {
        let k = choose|k: int| 0 <= k < longer.len() && is_angle_bracket(#[trigger] longer[k]);
        if k < n {
            assert(is_angle_bracket(shorter[k]));
        }
    }
    if has_angle_bracket(shorter) {
        let k = choose|k: int| 0 <= k < shorter.len() && is_angle_bracket(#[trigger] shorter[k]);
        assert(is_angle_bracket(longer[k]));
    }
    if is_angle_bracket(text[n]) {
        assert(is_angle_bracket(longer[n]));
    }
}

/// Whether `text` holds `<` or `>` anywhere.
pub fn contains_angle_bracket(text: &str) -> (found: bool)
    ensures
        found == has_angle_bracket(text@),
{
    let mut found = false;
    for c in it: text.chars()
        invariant
            it.seq() == text@,
            found == has_angle_bracket(text@.take(it.index() as int)),
    {
        proof {
            lemma_angle_bracket_step(text@, it.index() as int);
        }
        if c == '<' || c == '>' {
            found = true;
        }
    }
    assert(text@.take(text@.len() as int) =~= text@);
    found
}

/// A text without the byte-order mark that it begins with, if it begins
/// with one. A second mark behind the first is a character like any other.
pub open spec fn without_bom(text: Seq<char>) -> Seq<char> {
    if text.len() > 0 && text[0] == '\u{feff}' {
        text.drop_first()
    } else {
        text
    }
}

/// Drops the byte-order mark in front of `text`, if there is one. The
/// tokenizer passes over this one mark without counting it, so the offsets
/// of its tokens are offsets into what is left.
pub fn strip_bom(text: &str) -> (rest: &str)
    ensures
        rest@ == without_bom(text@),
{
    if text.is_empty() || text.get_char(0) != '\u{feff}' {
        return text;
    }
    let n = text.unicode_len();
    let rest = text.substring_char(1, n);
    assert(rest@ =~= text@.drop_first());
    rest
}

/// The characters of `text` whose encoding fills the bytes from `from` up to
/// `to`. The empty text where the two offsets do not bound a run of whole
/// characters.
pub open spec fn span(text: Seq<char>, from: int, to: int) -> Seq<char> {
    let bytes = encode_utf8(text);
    if 0 <= from <= to <= bytes.len() && is_char_boundary(bytes, from) {
        let tail = bytes.subrange(from, bytes.len() as int);
        if is_char_boundary(tail, to - from) {
            decode_utf8(tail.subrange(0, to - from))
        } else {
            Seq::empty()
        }
    } else {
        Seq::empty()
    }
}

/// The part of `text` between two byte offsets; see [`span`].
pub fn text_between(text: &str, from: usize, to: usize) -> (piece: &str)
    ensures
        piece@ == span(text@, from as int, to as int),
        encode_utf8(piece@).len() <= to - from || piece@.len() == 0,
        encode_utf8(piece@).len() <= encode_utf8(text@).len(),
{
    proof {
        reveal_strlit("");
    }
    if from <= to && to <= text.as_bytes().len() && text.is_char_boundary(from) {
        let (_, tail) = text.split_at(from);
        if tail.is_char_boundary(to - from) {
            let (piece, _) = tail.split_at(to - from);
            proof {
                encode_utf8_decode_utf8(piece@);
            }
            return piece;
        }
    }
    ""
}

/// The character that stands for a digit.
pub open spec fn digit(value: nat) -> char {
    if value == 0 {
        '0'
    } else if value == 1 {
        '1'
    } else if value == 2 {
        '2'
    } else if value == 3 {
        '3'
    } else if value == 4 {
        '4'
    } else if value == 5 {
        '5'
    } else if value == 6 {
        '6'
    } else if value == 7 {
        '7'
    } else if value == 8 {
        '8'
    } else {
        '9'
    }
}

/// A number written in decimal digits.
pub open spec fn decimal(n: nat) -> Seq<char>
    decreases n,
{
    if n < 10 {
        seq![digit(n)]
    } else {
        decimal(n / 10).push(digit(n % 10))
    }
}

fn digit_text(value: usize) -> (text: &'static str)
    requires
        value < 10,
    ensures
        text@ == seq![digit(value as nat)],
{
    proof {
        reveal_strlit("0");
        reveal_strlit("1");
        reveal_strlit("2");
        reveal_strlit("3");
        reveal_strlit("4");
        reveal_strlit("5");
        reveal_strlit("6");
        reveal_strlit("7");
        reveal_strlit("8");
        reveal_strlit("9");
    }
    let text = if value == 0 {
        "0"
    } else if value == 1 {
        "1"
    } else if value == 2 {
        "2"
    } else if value == 3 {
        "3"
    } else if value == 4 {
        "4"
    } else if value == 5 {
        "5"
    } else if value == 6 {
        "6"
    } else if value == 7 {
        "7"
    } else if value == 8 {
        "8"
    } else {
        "9"
    };
    text
}

/// Writes a number in decimal digits.
pub fn decimal_text(n: usize) -> (text: String)
    ensures
        text@ == decimal(n as nat),
    decreases n,
{
    if n < 10 {
        digit_text(n).to_owned()
    } else {
        let mut text = decimal_text(n / 10);
        text.append(digit_text(n % 10));
        text
    }
}

/// The lowercase form of a text, as the standard library gives it.
pub uninterp spec fn lowercase(text: Seq<char>) -> Seq<char>;

/// `str::to_lowercase`: the lowercase form of `text`.
#[verifier::external_body]
pub(crate) fn to_lowercase(text: &str) -> (lower: String)
    ensures
        lower@ == lowercase(text@),
{
    text.to_lowercase()
}

/// What `quick_xml` makes of a raw text when it replaces the character
/// references and predefined entities in it; `None` where it finds one that it
/// cannot resolve.
pub uninterp spec fn xml_unescaped(raw: Seq<char>) -> Option<Seq<char>>;

/// `quick_xml::escape::unescape`: `raw` with its escapes resolved. A text
/// without `&` holds no escape, and comes back as it is.
#[verifier::external_body]
pub(crate) fn unescape(raw: &str) -> (text: Option<String>)
    ensures
        text is Some == xml_unescaped(raw@) is Some,
        text is Some ==> text->0@ == xml_unescaped(raw@)->0,
        !raw@.contains('&') ==> text is Some && text->0@ == raw@,
{
    quick_xml::escape::unescape(raw).ok().map(|text| text.into_owned())
}

/// A raw text with its escapes resolved, or the empty text where they cannot
/// be resolved.
pub open spec fn unescaped_or_empty(raw: Seq<char>) -> Seq<char> {
    match xml_unescaped(raw) {
        Some(text) => text,
        None => Seq::empty(),
    }
}

/// Resolves the escapes in `raw`. A text whose escapes cannot be resolved
/// degrades to the empty text; a text without `&` stays as it is.
pub fn unescape_or_empty(raw: &str) -> (text: String)
    ensures
        text@ == unescaped_or_empty(raw@),
        !raw@.contains('&') ==> xml_unescaped(raw@) == Some(raw@),
{
    match unescape(raw) {
        Some(text) => text,
        None => String::new(),
    }
}

} // verus!
