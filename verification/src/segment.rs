use crate::attributes::Attributes;
use crate::text::{str_eq, unescape_or_empty, unescaped_or_empty};
use vstd::prelude::*;
use vstd::string::*;

verus! {

/// One node of a segment: literal text, an inline span with content of its
/// own, or a self-closing inline placeholder.
#[derive(Debug, PartialEq, Eq)]
pub enum SegNode {
    /// Literal character data.
    Text(String),
    /// An inline span that carries content.
    OpenOrCloseNode { node_type: String, attributes: Attributes, content: Vec<Box<SegNode>> },
    /// A self-closing placeholder without content.
    SelfClosingNode { node_type: String, attributes: Attributes },
}

/// The mathematical value of a [`SegNode`].
pub enum NodeView {
    Text(Seq<char>),
    Container { tag: Seq<char>, attributes: Map<Seq<char>, Seq<char>>, children: Seq<NodeView> },
    Marker { tag: Seq<char>, attributes: Map<Seq<char>, Seq<char>> },
}

/// The mathematical value of one node.
pub open spec fn node_view(node: SegNode) -> NodeView
    decreases node,
{
    match node {
        SegNode::Text(text) => NodeView::Text(text@),
        SegNode::OpenOrCloseNode { node_type, attributes, content } => NodeView::Container {
            tag: node_type@,
            attributes: attributes@,
            children: nodes_view(content@),
        },
        SegNode::SelfClosingNode { node_type, attributes } => NodeView::Marker {
            tag: node_type@,
            attributes: attributes@,
        },
    }
}

/// The mathematical value of a run of nodes.
pub open spec fn nodes_view(nodes: Seq<Box<SegNode>>) -> Seq<NodeView>
    decreases nodes,
{
    if nodes.len() == 0 {
        Seq::empty()
    } else {
        nodes_view(nodes.drop_last()).push(node_view(*nodes.last()))
    }
}

impl View for SegNode {
    type V = NodeView;

    open spec fn view(&self) -> NodeView {
        node_view(*self)
    }
}

impl Clone for SegNode {
    #[verifier::loop_isolation(false)]
    fn clone(&self) -> (copy: SegNode)
        ensures
            copy@ == self@,
        decreases self,
    {
        match self {
            SegNode::Text(text) => SegNode::Text(text.clone()),
            SegNode::OpenOrCloseNode { node_type, attributes, content } => {
                let mut children: Vec<Box<SegNode>> = Vec::new();
                let mut i: usize = 0;
                while i < content.len()
                    invariant
                        i <= content.len(),
                        nodes_view(children@) == nodes_view(content@.take(i as int)),
                    decreases content.len() - i,
                {
                    let item: &SegNode = &content[i];
                    let child = item.clone();
                    proof {
                        assert(content@.take(i + 1).drop_last() =~= content@.take(i as int));
                        assert(children@.push(Box::new(child)).drop_last() =~= children@);
                    }
                    children.push(Box::new(child));
                    i += 1;
                }
                assert(content@.take(i as int) =~= content@);
                SegNode::OpenOrCloseNode {
                    node_type: node_type.clone(),
                    attributes: attributes.clone(),
                    content: children,
                }
            },
            SegNode::SelfClosingNode { node_type, attributes } => SegNode::SelfClosingNode {
                node_type: node_type.clone(),
                attributes: attributes.clone(),
            },
        }
    }
}

/// The view of a run of nodes holds the view of each node, in order.
pub proof fn lemma_nodes_view(nodes: Seq<Box<SegNode>>)
    ensures
        nodes_view(nodes).len() == nodes.len(),
        forall|k: int|
            0 <= k < nodes.len() ==> (#[trigger] nodes_view(nodes)[k]) == node_view(*nodes[k]),
    decreases nodes.len(),
{
    if nodes.len() > 0 {
        lemma_nodes_view(nodes.drop_last());
    }
}

/// A node behind a run of nodes adds its view to the view of the run.
pub proof fn lemma_nodes_view_push(nodes: Seq<Box<SegNode>>, node: Box<SegNode>)
    ensures
        nodes_view(nodes.push(node)) == nodes_view(nodes).push(node_view(*node)),
{
    assert(nodes.push(node).drop_last() =~= nodes);
}

/// Whether a node counts as text although it may be markup: literal text, and
/// the inline spans `g` and `mrk`.
pub open spec fn is_inline_text(node: NodeView) -> bool {
    match node {
        NodeView::Text(_) => true,
        NodeView::Container { tag, .. } => tag == "g"@ || tag == "mrk"@,
        NodeView::Marker { .. } => false,
    }
}

/// The text that one node contributes: literal text as it stands, the
/// content of an inline span extracted in the same way and with its escapes
/// resolved, nothing for a placeholder.
pub open spec fn node_text(node: NodeView, include_tags: bool) -> Seq<char>
    decreases node,
{
    match node {
        NodeView::Text(text) => text,
        NodeView::Container { children, .. } => unescaped_or_empty(
            extracted_text(children, include_tags),
        ),
        NodeView::Marker { .. } => Seq::empty(),
    }
}

/// The text of a run of nodes. With `include_tags` every node contributes;
/// without it only those that count as text do, at every depth: a span that
/// does not count as text is left out with all that it holds, wherever it
/// stands.
pub open spec fn extracted_text(nodes: Seq<NodeView>, include_tags: bool) -> Seq<char>
    decreases nodes,
{
    if nodes.len() == 0 {
        Seq::empty()
    } else if include_tags || is_inline_text(nodes.last()) {
        extracted_text(nodes.drop_last(), include_tags) + node_text(nodes.last(), include_tags)
    } else {
        extracted_text(nodes.drop_last(), include_tags)
    }
}

/// The text of a run of nodes, markup included.
pub open spec fn plain_text(nodes: Seq<NodeView>) -> Seq<char> {
    extracted_text(nodes, true)
}

/// Whether a node, if it is an inline span, has a child, and every span
/// below it has one too.
pub open spec fn node_filled(node: NodeView) -> bool
    decreases node,
{
    match node {
        NodeView::Container { children, .. } => children.len() > 0 && nodes_filled(children),
        _ => true,
    }
}

/// Whether every inline span in a run of nodes, at any depth, has a child.
pub open spec fn nodes_filled(nodes: Seq<NodeView>) -> bool
    decreases nodes,
{
    if nodes.len() == 0 {
        true
    } else {
        nodes_filled(nodes.drop_last()) && node_filled(nodes.last())
    }
}

/// A node behind a run of nodes leaves every span with a child where the
/// run and the node do.
pub proof fn lemma_nodes_filled_push(nodes: Seq<NodeView>, node: NodeView)
    ensures
        nodes_filled(nodes.push(node)) == (nodes_filled(nodes) && node_filled(node)),
{
    assert(nodes.push(node).drop_last() =~= nodes);
}

/// Text that was extracted is plain. Taken as a segment of its own, one text
/// node, it comes out of either extraction as it went in, however often the
/// extraction is repeated.
pub proof fn lemma_extracted_text_is_plain(nodes: Seq<NodeView>, first: bool, again: bool)
    ensures
        extracted_text(seq![NodeView::Text(extracted_text(nodes, first))], again)
            == extracted_text(nodes, first),
{
    let text = extracted_text(nodes, first);
    let plain = seq![NodeView::Text(text)];
    assert(plain.drop_last() =~= Seq::<NodeView>::empty());
    assert(extracted_text(plain.drop_last(), again) =~= Seq::<char>::empty());
    assert(node_text(plain.last(), again) == text);
    assert(Seq::<char>::empty() + text =~= text);
}

/// Where a segment holds nothing but literal text, leaving markup out leaves
/// nothing out: both extractions give the same text.
pub proof fn lemma_extractions_agree_on_text(nodes: Seq<NodeView>)
    requires
        forall|k: int| 0 <= k < nodes.len() ==> (#[trigger] nodes[k]) is Text,
    ensures
        extracted_text(nodes, true) == extracted_text(nodes, false),
    decreases nodes.len(),
{
    if nodes.len() > 0 {
        lemma_extractions_agree_on_text(nodes.drop_last());
        assert(nodes[nodes.len() - 1] is Text);
        assert(node_text(nodes.last(), true) == node_text(nodes.last(), false));
    }
}

/// Whether a node counts as text when markup is left out.
pub fn is_text_node(node: &SegNode) -> (keep: bool)
    ensures
        keep == is_inline_text(node@),
{
    match node {
        SegNode::Text(_) => true,
        SegNode::OpenOrCloseNode { node_type, .. } => {
            str_eq(node_type.as_str(), "g") || str_eq(node_type.as_str(), "mrk")
        },
        SegNode::SelfClosingNode { .. } => false,
    }
}

/// The text that one node contributes; see [`node_text`].
#[verifier::loop_isolation(false)]
pub fn text_of_node(node: &SegNode, include_tags: bool) -> (text: String)
    ensures
        text@ == node_text(node@, include_tags),
    decreases node,
{
    match node {
        SegNode::Text(content) => content.clone(),
        SegNode::OpenOrCloseNode { content, .. } => {
            let inner = extract_text(content, include_tags);
            unescape_or_empty(inner.as_str())
        },
        SegNode::SelfClosingNode { .. } => String::new(),
    }
}

/// The text of a run of nodes, markup included; see [`plain_text`].
pub fn collect_text(nodes: &Vec<Box<SegNode>>) -> (text: String)
    ensures
        text@ == plain_text(nodes_view(nodes@)),
{
    extract_text(nodes, true)
}

/// Flattens a segment to text. With `include_tags` the content of every
/// inline span is part of the text; without it only literal text and the
/// spans that count as text are, and every other node is left out whole,
/// at whatever depth it stands.
#[verifier::loop_isolation(false)]
pub fn extract_text(segs: &Vec<Box<SegNode>>, include_tags: bool) -> (text: String)
    ensures
        text@ == extracted_text(nodes_view(segs@), include_tags),
    decreases segs,
{
    let mut text = String::new();
    let mut i: usize = 0;
    proof {
        lemma_nodes_view(segs@);
    }
    while i < segs.len()
        invariant
            i <= segs.len(),
            text@ == extracted_text(nodes_view(segs@).take(i as int), include_tags),
        decreases segs.len() - i,
    {
        proof {
            let all = nodes_view(segs@);
            assert(all.take(i + 1).drop_last() =~= all.take(i as int));
        }
        if include_tags || is_text_node(&segs[i]) {
            let piece = text_of_node(&segs[i], include_tags);
            text.append(piece.as_str());
        }
        i += 1;
    }
    assert(nodes_view(segs@).take(i as int) =~= nodes_view(segs@));
    text
}

} // verus!
