use crate::attributes::{attributes_of, get_attributes};
use crate::error::ParseError;
use crate::segment::{
    lemma_nodes_filled_push, lemma_nodes_view, lemma_nodes_view_push, nodes_filled, nodes_view,
    NodeView, SegNode,
};
use crate::text::{
    contains_angle_bracket, has_angle_bracket, span, str_eq, strip_bom, text_between,
    unescape_or_empty, unescaped_or_empty, without_bom,
};
use crate::token::{document_tokens, tokenize, tokens_view, Token, TokenKind, TokenView};
use vstd::prelude::*;
use vstd::utf8::encode_utf8;

verus! {

/// Whether a tag opens an inline span that carries content.
pub open spec fn is_container_tag(name: Seq<char>) -> bool {
    name == "bpt"@ || name == "ept"@ || name == "ph"@ || name == "g"@ || name == "mrk"@
}

/// Whether a self-closing tag is an inline placeholder.
pub open spec fn is_marker_tag(name: Seq<char>) -> bool {
    name == "bx"@ || name == "ex"@ || name == "x"@
}

/// The mathematical value of a list of tag names.
pub open spec fn names_view(names: Seq<String>) -> Seq<Seq<char>> {
    Seq::new(names.len(), |k: int| names[k]@)
}

/// Whether a closing tag is one of those that end the reading of a segment.
pub open spec fn is_terminator(name: Seq<char>, terminators: Seq<Seq<char>>) -> bool {
    exists|k: int| 0 <= k < terminators.len() && #[trigger] terminators[k] == name
}

/// The closing tags that bound translatable content in a document: those of
/// the elements `source`, `target`, `seg` and `term`.
pub open spec fn content_tags() -> Seq<Seq<char>> {
    seq!["source"@, "target"@, "seg"@, "term"@]
}

/// The closing tags that bound translatable content in a document; see
/// [`content_tags`].
pub fn content_terminators() -> (tags: Vec<String>)
    ensures
        names_view(tags@) == content_tags(),
{
    let mut tags: Vec<String> = Vec::new();
    tags.push("source".to_owned());
    tags.push("target".to_owned());
    tags.push("seg".to_owned());
    tags.push("term".to_owned());
    assert(names_view(tags@) =~= content_tags());
    tags
}

fn container_tag(name: &str) -> (yes: bool)
    ensures
        yes == is_container_tag(name@),
{
    str_eq(name, "bpt") || str_eq(name, "ept") || str_eq(name, "ph") || str_eq(name, "g")
        || str_eq(name, "mrk")
}

fn marker_tag(name: &str) -> (yes: bool)
    ensures
        yes == is_marker_tag(name@),
{
    str_eq(name, "bx") || str_eq(name, "ex") || str_eq(name, "x")
}

fn terminator(name: &str, terminators: &Vec<String>) -> (yes: bool)
    ensures
        yes == is_terminator(name@, names_view(terminators@)),
{
    let mut i: usize = 0;
    while i < terminators.len()
        invariant
            i <= terminators.len(),
            forall|k: int| 0 <= k < i ==> (#[trigger] names_view(terminators@)[k]) != name@,
        decreases terminators.len() - i,
    {
        if str_eq(terminators[i].as_str(), name) {
            assert(names_view(terminators@)[i as int] == name@);
            return true;
        }
        i += 1;
    }
    false
}

/// Where the element that was opened just before `from` is closed: the place
/// of the first closing tag `name` that no opening tag `name` behind `from`
/// accounts for. `depth` counts the opening tags that are still to be
/// accounted for. Where the document ends first, the place where it ends.
pub open spec fn closing_index(
    tokens: Seq<TokenView>,
    name: Seq<char>,
    from: int,
    depth: nat,
) -> int
    decreases tokens.len() - from,
{
    if from < 0 || from >= tokens.len() {
        from
    } else if tokens[from].kind == TokenKind::Eof {
        from
    } else if tokens[from].kind == TokenKind::Start && tokens[from].name == name {
        closing_index(tokens, name, from + 1, depth + 1)
    } else if tokens[from].kind == TokenKind::End && tokens[from].name == name {
        if depth == 0 {
            from
        } else {
            closing_index(tokens, name, from + 1, (depth - 1) as nat)
        }
    } else {
        closing_index(tokens, name, from + 1, depth)
    }
}

/// Whether the element that was opened just before `from` is closed at all.
pub open spec fn is_closed_at(tokens: Seq<TokenView>, at: int) -> bool {
    0 <= at < tokens.len() && tokens[at].kind == TokenKind::End
}

/// Finds where the element `name`, opened just before `from`, is closed; see
/// [`closing_index`].
pub fn find_closing(tokens: &Vec<Token>, name: &str, from: usize) -> (at: usize)
    ensures
        at == closing_index(tokens_view(tokens@), name@, from as int, 0),
        from <= at,
        from <= tokens.len() ==> at <= tokens.len(),
{
    let mut at = from;
    let mut depth: usize = 0;
    while at < tokens.len()
        invariant
            from <= at,
            from <= tokens.len() ==> at <= tokens.len(),
            depth <= at - from,
            closing_index(tokens_view(tokens@), name@, at as int, depth as nat) == closing_index(
                tokens_view(tokens@),
                name@,
                from as int,
                0,
            ),
        decreases tokens.len() - at,
    {
        let token = &tokens[at];
        if token.kind == TokenKind::Eof {
            return at;
        }
        if token.kind == TokenKind::Start && str_eq(token.name.as_str(), name) {
            depth += 1;
        } else if token.kind == TokenKind::End && str_eq(token.name.as_str(), name) {
            if depth == 0 {
                return at;
            }
            depth -= 1;
        }
        at += 1;
    }
    at
}

/// The children of an inline span whose raw content is `raw`. Content
/// without an angle bracket is one text node that holds it as it stands.
/// Other content is read as a document of its own, and may give no node at
/// all. `limit` is the length in bytes of the text that the span was found
/// in: content that is not shorter is not read again, and is kept as it
/// stands.
pub open spec fn container_children(
    raw: Seq<char>,
    limit: nat,
    terminators: Seq<Seq<char>>,
) -> Result<Seq<NodeView>, ParseError>
    decreases limit, 0nat,
{
    let inner = without_bom(raw);
    if has_angle_bracket(raw) && encode_utf8(inner).len() < limit {
        match document_tokens(raw) {
            None => Err(ParseError::Malformed),
            Some(tokens) => match inline_nodes(tokens, inner, 0, Seq::empty(), terminators) {
                Err(e) => Err(e),
                Ok((nodes, _)) => Ok(nodes),
            },
        }
    } else {
        Ok(seq![NodeView::Text(raw)])
    }
}

/// The nodes read from `tokens` at `from` onwards, behind the nodes `nodes`
/// that were read before, and the place behind the last token that was
/// taken. `text` is the text that the tokens were read from, and
/// `terminators` are the closing tags that end the reading.
///
/// Reading stops behind the first closing tag that is one of `terminators`,
/// or in front of the end of the document. Text becomes a text node, a placeholder
/// tag a marker, and an opening tag of an inline span a container, whose raw
/// content reaches up to the tag that closes it. A span is kept only where
/// it has a child: one whose content gives no node is left out. Everything
/// else is passed over.
pub open spec fn inline_nodes(
    tokens: Seq<TokenView>,
    text: Seq<char>,
    from: int,
    nodes: Seq<NodeView>,
    terminators: Seq<Seq<char>>,
) -> Result<(Seq<NodeView>, int), ParseError>
    decreases encode_utf8(text).len(), tokens.len() - from,
{
    if from < 0 || from >= tokens.len() {
        Ok((nodes, from))
    } else {
        let token = tokens[from];
        match token.kind {
            TokenKind::Eof => Ok((nodes, from)),
            TokenKind::End => if is_terminator(token.name, terminators) {
                Ok((nodes, from + 1))
            } else {
                inline_nodes(tokens, text, from + 1, nodes, terminators)
            },
            TokenKind::Text => inline_nodes(
                tokens,
                text,
                from + 1,
                nodes.push(NodeView::Text(unescaped_or_empty(token.body))),
                terminators,
            ),
            TokenKind::Empty => if is_marker_tag(token.name) {
                match attributes_of(token.body) {
                    Err(e) => Err(e),
                    Ok(attributes) => inline_nodes(
                        tokens,
                        text,
                        from + 1,
                        nodes.push(NodeView::Marker { tag: token.name, attributes }),
                        terminators,
                    ),
                }
            } else {
                inline_nodes(tokens, text, from + 1, nodes, terminators)
            },
            TokenKind::Start => if is_container_tag(token.name) {
                match attributes_of(token.body) {
                    Err(e) => Err(e),
                    Ok(attributes) => {
                        let close = closing_index(tokens, token.name, from + 1, 0);
                        let raw = container_raw(tokens, text, from, close);
                        match container_children(raw, encode_utf8(text).len(), terminators) {
                            Err(e) => Err(e),
                            Ok(children) => inline_nodes(
                                tokens,
                                text,
                                after_container(tokens, from, close),
                                if children.len() == 0 {
                                    nodes
                                } else {
                                    nodes.push(
                                        NodeView::Container {
                                            tag: token.name,
                                            attributes,
                                            children,
                                        },
                                    )
                                },
                                terminators,
                            ),
                        }
                    },
                }
            } else {
                inline_nodes(tokens, text, from + 1, nodes, terminators)
            },
            TokenKind::Other => inline_nodes(tokens, text, from + 1, nodes, terminators),
        }
    }
}

/// The raw content of the inline span opened at `open` and closed at
/// `close`: the text between the two tags. Empty where the span is never
/// closed.
pub open spec fn container_raw(
    tokens: Seq<TokenView>,
    text: Seq<char>,
    open: int,
    close: int,
) -> Seq<char> {
    if open < close && is_closed_at(tokens, close) {
        span(text, tokens[open].end, tokens[close - 1].end)
    } else {
        Seq::empty()
    }
}

/// The place to go on from behind the inline span opened at `open`: behind
/// the tag that closes it at `close`, or the end of the document where
/// nothing closes it.
pub open spec fn after_container(tokens: Seq<TokenView>, open: int, close: int) -> int {
    if open < close && is_closed_at(tokens, close) {
        close + 1
    } else if open < close <= tokens.len() {
        close
    } else {
        tokens.len() as int
    }
}

/// The mathematical value of the outcome of reading a segment.
pub open spec fn inline_outcome(res: Result<(Vec<Box<SegNode>>, usize), ParseError>) -> Result<
    (Seq<NodeView>, int),
    ParseError,
> {
    match res {
        Ok((nodes, next)) => Ok((nodes_view(nodes@), next as int)),
        Err(e) => Err(e),
    }
}

/// The mathematical value of the outcome of reading the content of a span.
pub open spec fn children_outcome(res: Result<Vec<Box<SegNode>>, ParseError>) -> Result<
    Seq<NodeView>,
    ParseError,
> {
    match res {
        Ok(nodes) => Ok(nodes_view(nodes@)),
        Err(e) => Err(e),
    }
}

impl SegNode {
    /// Builds the children of an inline span from its raw content; see
    /// [`container_children`]. Content without `<` and `>` is never read as
    /// markup: it becomes the one text child, as it stands. Every span among
    /// the children, at any depth, has a child of its own.
    pub fn content_of(raw: &str, limit: usize, terminators: &Vec<String>) -> (res: Result<
        Vec<Box<SegNode>>,
        ParseError,
    >)
        ensures
            children_outcome(res) == container_children(
                raw@,
                limit as nat,
                names_view(terminators@),
            ),
            !has_angle_bracket(raw@) ==> children_outcome(res) == Ok::<_, ParseError>(
                seq![NodeView::Text(raw@)],
            ),
            res matches Ok(nodes) ==> nodes_filled(nodes_view(nodes@)),
        decreases limit, 0nat,
    {
        if contains_angle_bracket(raw) {
            let inner = strip_bom(raw);
            if inner.as_bytes().len() < limit {
                return match tokenize(raw) {
                    None => Err(ParseError::Malformed),
                    Some(tokens) => match SegNode::parse_inline(&tokens, inner, 0, terminators) {
                        Err(e) => Err(e),
                        Ok((nodes, _)) => Ok(nodes),
                    },
                };
            }
        }
        let mut nodes: Vec<Box<SegNode>> = Vec::new();
        let node = Box::new(SegNode::Text(raw.to_owned()));
        proof {
            lemma_nodes_view_push(nodes@, node);
            lemma_nodes_filled_push(nodes_view(nodes@), node@);
        }
        nodes.push(node);
        Ok(nodes)
    }

    /// Reads one segment from `tokens`, starting at `from`, up to the first
    /// closing tag that is one of `terminators` or up to the end of the
    /// document; see [`inline_nodes`]. Gives the nodes and the place to go on
    /// from. Every
    /// span among the nodes, at any depth, has a child.
    #[verifier::loop_isolation(false)]
    pub fn parse_inline(
        tokens: &Vec<Token>,
        text: &str,
        from: usize,
        terminators: &Vec<String>,
    ) -> (res: Result<(Vec<Box<SegNode>>, usize), ParseError>)
        ensures
            inline_outcome(res) == inline_nodes(
                tokens_view(tokens@),
                text@,
                from as int,
                Seq::empty(),
                names_view(terminators@),
            ),
            res matches Ok((_, next)) ==> from <= next && (from <= tokens.len() ==> next
                <= tokens.len()),
            res matches Ok((nodes, _)) ==> nodes_filled(nodes_view(nodes@)),
        decreases encode_utf8(text@).len(), tokens.len() - from,
    {
        let ghost all = tokens_view(tokens@);
        let ghost stops = names_view(terminators@);
        let ghost goal = inline_nodes(all, text@, from as int, Seq::empty(), stops);
        let mut nodes: Vec<Box<SegNode>> = Vec::new();
        let mut at = from;
        while at < tokens.len()
            invariant
                from <= at,
                from <= tokens.len() ==> at <= tokens.len(),
                inline_nodes(all, text@, at as int, nodes_view(nodes@), stops) == goal,
                nodes_filled(nodes_view(nodes@)),
            decreases tokens.len() - at,
        {
            let token = &tokens[at];
            match token.kind {
                TokenKind::Eof => {
                    return Ok((nodes, at));
                },
                TokenKind::End => {
                    if terminator(token.name.as_str(), terminators) {
                        return Ok((nodes, at + 1));
                    }
                    at += 1;
                },
                TokenKind::Text => {
                    let node = Box::new(SegNode::Text(unescape_or_empty(token.body.as_str())));
                    proof {
                        lemma_nodes_view_push(nodes@, node);
                        lemma_nodes_filled_push(nodes_view(nodes@), node@);
                    }
                    nodes.push(node);
                    at += 1;
                },
                TokenKind::Empty => {
                    if marker_tag(token.name.as_str()) {
                        let attributes = match get_attributes(token.body.as_str()) {
                            Err(e) => {
                                return Err(e);
                            },
                            Ok(attributes) => attributes,
                        };
                        let node = Box::new(
                            SegNode::SelfClosingNode { node_type: token.name.clone(), attributes },
                        );
                        proof {
                            lemma_nodes_view_push(nodes@, node);
                            lemma_nodes_filled_push(nodes_view(nodes@), node@);
                        }
                        nodes.push(node);
                    }
                    at += 1;
                },
                TokenKind::Start => {
                    if container_tag(token.name.as_str()) {
                        let attributes = match get_attributes(token.body.as_str()) {
                            Err(e) => {
                                return Err(e);
                            },
                            Ok(attributes) => attributes,
                        };
                        let close = find_closing(tokens, token.name.as_str(), at + 1);
                        let closed = close < tokens.len() && tokens[close].kind == TokenKind::End;
                        let raw = if closed {
                            text_between(text, token.end, tokens[close - 1].end)
                        } else {
                            proof {
                                reveal_strlit("");
                                assert(""@ =~= Seq::<char>::empty());
                            }
                            ""
                        };
                        let children = match SegNode::content_of(
                            raw,
                            text.as_bytes().len(),
                            terminators,
                        ) {
                            Err(e) => {
                                return Err(e);
                            },
                            Ok(children) => children,
                        };
                        proof {
                            lemma_nodes_view(children@);
                        }
                        if children.len() != 0 {
                            let node = Box::new(
                                SegNode::OpenOrCloseNode {
                                    node_type: token.name.clone(),
                                    attributes,
                                    content: children,
                                },
                            );
                            proof {
                                lemma_nodes_view_push(nodes@, node);
                                lemma_nodes_filled_push(nodes_view(nodes@), node@);
                            }
                            nodes.push(node);
                        }
                        at = if closed {
                            close + 1
                        } else {
                            close
                        };
                    } else {
                        at += 1;
                    }
                },
                TokenKind::Other => {
                    at += 1;
                },
            }
        }
        Ok((nodes, at))
    }
}

} // verus!
