use vstd::prelude::*;
use html5ever::rcdom::{Handle, Node, NodeData, RcDom};
use html5ever::tendril::TendrilSink;
use html5ever::{parse_document, ParseOpts};

verus! {

/// The Unicode `White_Space` property: the characters listed for it in
/// the Unicode Character Database (PropList.txt).
pub open spec fn is_white_space(c: char) -> bool {
    let u = c as u32;
    ||| 0x09 <= u <= 0x0d
    ||| u == 0x20
    ||| u == 0x85
    ||| u == 0xa0
    ||| u == 0x1680
    ||| 0x2000 <= u <= 0x200a
    ||| u == 0x2028
    ||| u == 0x2029
    ||| u == 0x202f
    ||| u == 0x205f
    ||| u == 0x3000
}

/// A text is blank when every character in it is white space
/// (so that trimming it leaves nothing).
pub open spec fn is_blank(s: Seq<char>) -> bool {
    forall|k: int| 0 <= k < s.len() ==> is_white_space(#[trigger] s[k])
}

/// Calls `char::is_whitespace`, which std documents as "true if this char
/// has the White_Space property"; the contract lists that property's
/// characters.
#[verifier::external_body]
fn char_is_whitespace(c: char) -> (r: bool)
    ensures
        r == is_white_space(c),
{
    c.is_whitespace()
}

/// Whether `s` holds only white space (as `s.trim().is_empty()` decides).
pub fn text_is_blank(s: &str) -> (r: bool)
    ensures
        r == is_blank(s@),
{
    for c in it: s.chars()
        invariant
            it.seq() == s@,
            forall|j: int| 0 <= j < it.index() ==> is_white_space(#[trigger] s@[j]),
    {
        if !char_is_whitespace(c) {
            return false;
        }
    }
    true
}

/// A node of a parsed HTML document, holding as plain values what the
/// block builder reads: the text of text nodes, the namespace and local
/// name of elements, and the children of every node.
#[derive(Debug)]
pub enum DomNode {
    /// A text node.
    Text { contents: String },
    /// An element; `namespace` is the namespace URL of its qualified name,
    /// `name` its local name.
    Element { namespace: String, name: String, children: Vec<DomNode> },
    /// The document root, a doctype, a comment or a processing instruction.
    Other { children: Vec<DomNode> },
}

/// The namespace URL of HTML elements.
pub open spec fn html_namespace() -> Seq<char> {
    "http://www.w3.org/1999/xhtml"@
}

#[verifier::external_type_specification]
#[verifier::external_body]
pub struct ExNode(Node);

/// The tree that html5ever's HTML5 parser builds for a document
/// (`parse_document` into an `RcDom`), copied node by node into a `DomNode`.
pub uninterp spec fn html5ever_document(input: Seq<char>) -> DomNode;

/// Parses `input` as a whole HTML document with `html5ever::parse_document`
/// (default options, UTF-8 input) and copies the resulting `RcDom` tree.
/// The contract names the tree: that the same text always gives the same
/// tree is all that is claimed of the parser.
#[verifier::external_body]
pub(crate) fn parse_document_tree(input: &str) -> (dom: DomNode)
    ensures
        dom == html5ever_document(input@),
{
    let parsed = parse_document(RcDom::default(), ParseOpts::default())
        .from_utf8()
        .read_from(&mut input.as_bytes())
        .unwrap();
    copy_node(&parsed.document)
}

/// Copies an `RcDom` node and its children (`Node::children`, in order)
/// into a `DomNode`; text, namespace and local name are copied as strings.
#[verifier::external_body]
fn copy_node(handle: &Handle) -> (node: DomNode) {
    let mut children = Vec::new();
    for child in handle.children.borrow().iter() {
        children.push(copy_node(child));
    }
    match handle.data {
        NodeData::Text { ref contents } => DomNode::Text { contents: contents.borrow().to_string() },
        NodeData::Element { ref name, .. } => DomNode::Element {
            namespace: name.ns.to_string(), name: name.local.to_string(), children },
        NodeData::Document => DomNode::Other { children },
        NodeData::Doctype { .. } => DomNode::Other { children },
        NodeData::Comment { .. } => DomNode::Other { children },
        NodeData::ProcessingInstruction { .. } => DomNode::Other { children },
    }
}

} // verus!
