use vstd::prelude::*;
use crate::dom::{DomNode, html_namespace, is_blank, text_is_blank, parse_document_tree, html5ever_document};

verus! {

/// A paragraph or heading: its kind and its styled text, in order.
#[derive(Debug)]
pub struct Block {
    pub class: BlockClass,
    pub content: Vec<Span>,
}

/// A run of text in one style.
#[derive(Debug)]
pub enum Span {
    Text { class: SpanClass, content: String },
}

/// The kind of a block.
#[derive(Debug, Clone, Copy, PartialEq, Eq, Structural)]
pub enum BlockClass {
    H1,
    H2,
    H3,
    H4,
    H5,
    H6,
    Paragraph,
    Pre,
}

/// The style of a span.
#[derive(Debug, Clone, Copy, PartialEq, Eq, Structural)]
pub enum SpanClass {
    Bold,
    Italic,
    Regular,
}

/// The styles in force while the tree is walked: inside a `<b>`, inside an `<i>`.
pub struct WalkState {
    bold: bool,
    italic: bool,
}

/// What a span holds, as mathematical values.
pub struct SpanView {
    pub class: SpanClass,
    pub content: Seq<char>,
}

/// What a block holds, as mathematical values.
pub struct BlockView {
    pub class: BlockClass,
    pub content: Seq<SpanView>,
}

impl View for Span {
    type V = SpanView;

    open spec fn view(&self) -> SpanView {
        match self {
            Span::Text { class, content } => SpanView { class: *class, content: content@ },
        }
    }
}

pub open spec fn spans_view(s: Seq<Span>) -> Seq<SpanView> {
    s.map_values(|x: Span| x@)
}

pub open spec fn blocks_view(s: Seq<Block>) -> Seq<BlockView> {
    s.map_values(|x: Block| x@)
}

impl View for Block {
    type V = BlockView;

    open spec fn view(&self) -> BlockView {
        BlockView { class: self.class, content: spans_view(self.content@) }
    }
}

impl View for WalkState {
    /// (bold, italic)
    type V = (bool, bool);

    closed spec fn view(&self) -> (bool, bool) {
        (self.bold, self.italic)
    }
}

impl Default for WalkState {
    /// Neither bold nor italic.
    fn default() -> (s: Self)
        ensures
            s@ == (false, false),
    {
        WalkState { bold: false, italic: false }
    }
}

/// The style of a text met in the given state.
pub open spec fn span_class(bold: bool, italic: bool) -> SpanClass {
    if bold {
        SpanClass::Bold
    } else if italic {
        SpanClass::Italic
    } else {
        SpanClass::Regular
    }
}

/// The block that an element of this local name opens, if any:
/// `div` and `p` open paragraphs, `h1` to `h3` headings.
pub open spec fn block_class_of(name: Seq<char>) -> Option<BlockClass> {
    if name == "div"@ || name == "p"@ {
        Some(BlockClass::Paragraph)
    } else if name == "h1"@ {
        Some(BlockClass::H1)
    } else if name == "h2"@ {
        Some(BlockClass::H2)
    } else if name == "h3"@ {
        Some(BlockClass::H3)
    } else {
        None
    }
}

/// The state in which the children of a (non-block) element are walked:
/// `b` turns bold on, `i` turns italic on.
pub open spec fn element_style(name: Seq<char>, bold: bool, italic: bool) -> (bool, bool) {
    if name == "b"@ && !bold {
        (true, italic)
    } else if name == "i"@ && !italic {
        (bold, true)
    } else {
        (bold, italic)
    }
}

/// The children of a node (a text node has none).
pub open spec fn children_of(n: DomNode) -> Seq<DomNode> {
    match n {
        DomNode::Text { .. } => seq![],
        DomNode::Element { children, .. } => children@,
        DomNode::Other { children } => children@,
    }
}

/// The blocks a node yields, and the spans it yields that no block of its
/// own takes in.
pub open spec fn walk_node(n: DomNode, bold: bool, italic: bool) -> (Seq<BlockView>, Seq<SpanView>)
    decreases n,
{
    match n {
        DomNode::Text { contents } => {
            if is_blank(contents@) {
                (seq![], seq![])
            } else {
                (seq![], seq![SpanView { class: span_class(bold, italic), content: contents@ }])
            }
        },
        DomNode::Element { namespace, name, children } => {
            match block_class_of(name@) {
                Some(class) => {
                    let inner = walk_children(children@, bold, italic);
                    (inner.0.push(BlockView { class, content: inner.1 }), seq![])
                },
                None => {
                    let style = element_style(name@, bold, italic);
                    walk_children(children@, style.0, style.1)
                },
            }
        },
        DomNode::Other { children } => walk_children(children@, bold, italic),
    }
}

/// The blocks and spans of a sequence of sibling nodes, one after the other.
pub open spec fn walk_children(s: Seq<DomNode>, bold: bool, italic: bool) -> (Seq<BlockView>, Seq<SpanView>)
    decreases s,
{
    if s.len() == 0 {
        (seq![], seq![])
    } else {
        let front = walk_children(s.drop_last(), bold, italic);
        let back = walk_node(s.last(), bold, italic);
        (front.0 + back.0, front.1 + back.1)
    }
}

/// The blocks of the given children, followed by one block of class
/// `class` that holds their remaining spans.
pub open spec fn new_block_view(children: Seq<DomNode>, bold: bool, italic: bool, class: BlockClass) -> Seq<BlockView> {
    let inner = walk_children(children, bold, italic);
    inner.0.push(BlockView { class, content: inner.1 })
}

/// The walk is defined on this node in this state: every element is in the
/// HTML namespace, and no visible text stands inside both `<b>` and `<i>`.
pub open spec fn node_supported(n: DomNode, bold: bool, italic: bool) -> bool
    decreases n,
{
    match n {
        DomNode::Text { contents } => !(bold && italic) || is_blank(contents@),
        DomNode::Element { namespace, name, children } => {
            &&& namespace@ == html_namespace()
            &&& match block_class_of(name@) {
                Some(class) => forall|i: int|
                    0 <= i < children.len() ==> node_supported(#[trigger] children@[i], bold, italic),
                None => forall|i: int|
                    0 <= i < children.len() ==> node_supported(
                        #[trigger] children@[i],
                        element_style(name@, bold, italic).0,
                        element_style(name@, bold, italic).1,
                    ),
            }
        },
        DomNode::Other { children } => forall|i: int|
            0 <= i < children.len() ==> node_supported(#[trigger] children@[i], bold, italic),
    }
}

/// The local names that the walk announces, in order, as it reaches each
/// element, and whether it gets through the whole tree. An element outside
/// the HTML namespace stops it before its name; visible text inside both
/// `<b>` and `<i>` stops it too. A `b` (or `i`) met while bold (italic) is
/// off is walked twice over, first plain and then in the new style, so its
/// name comes twice.
pub open spec fn trace_node(n: DomNode, bold: bool, italic: bool) -> (Seq<Seq<char>>, bool)
    decreases n,
{
    match n {
        DomNode::Text { contents } => (seq![], !(bold && italic) || is_blank(contents@)),
        DomNode::Element { namespace, name, children } => {
            if namespace@ != html_namespace() {
                (seq![], false)
            } else {
                let inner = match block_class_of(name@) {
                    Some(_) => trace_children(children@, bold, italic),
                    None => trace_children(
                        children@,
                        element_style(name@, bold, italic).0,
                        element_style(name@, bold, italic).1,
                    ),
                };
                (element_announcements(name@, bold, italic) + inner.0, inner.1)
            }
        },
        DomNode::Other { children } => trace_children(children@, bold, italic),
    }
}

/// The trace of sibling trees, one after the other, stopping at the first
/// that stops the walk.
pub open spec fn trace_children(s: Seq<DomNode>, bold: bool, italic: bool) -> (Seq<Seq<char>>, bool)
    decreases s,
{
    if s.len() == 0 {
        (seq![], true)
    } else {
        let front = trace_children(s.drop_last(), bold, italic);
        if !front.1 {
            front
        } else {
            let back = trace_node(s.last(), bold, italic);
            (front.0 + back.0, back.1)
        }
    }
}

/// How an element announces itself: once, or twice for a `b` met while
/// bold is off or an `i` met while italic is off.
pub open spec fn element_announcements(name: Seq<char>, bold: bool, italic: bool) -> Seq<Seq<char>> {
    if (name == "b"@ && !bold) || (name == "i"@ && !italic) {
        seq![name, name]
    } else {
        seq![name]
    }
}

pub open spec fn strings_view(s: Seq<String>) -> Seq<Seq<char>> {
    s.map_values(|x: String| x@)
}

/// Every node of the sequence is supported in this state.
pub open spec fn all_supported(s: Seq<DomNode>, bold: bool, italic: bool) -> bool {
    forall|i: int| 0 <= i < s.len() ==> node_supported(#[trigger] s[i], bold, italic)
}

/// Whether two texts are equal, character by character.
fn same_text(a: &str, b: &str) -> (r: bool)
    ensures
        r == (a@ == b@),
{
    let n = a.unicode_len();
    if n != b.unicode_len() {
        return false;
    }
    let mut i: usize = 0;
    while i < n
        invariant
            n == a@.len(),
            n == b@.len(),
            i <= n,
            forall|j: int| 0 <= j < i ==> a@[j] == b@[j],
        decreases n - i,
    {
        if a.get_char(i) != b.get_char(i) {
            return false;
        }
        i = i + 1;
    }
    assert(a@ =~= b@);
    true
}

/// The block that an element of local name `name` opens, if any.
fn block_class_for(name: &str) -> (r: Option<BlockClass>)
    ensures
        r == block_class_of(name@),
{
    if same_text(name, "div") || same_text(name, "p") {
        Some(BlockClass::Paragraph)
    } else if same_text(name, "h1") {
        Some(BlockClass::H1)
    } else if same_text(name, "h2") {
        Some(BlockClass::H2)
    } else if same_text(name, "h3") {
        Some(BlockClass::H3)
    } else {
        None
    }
}

/// The state in which the children of an inline element named `name` are walked.
fn style_for(name: &str, state: &WalkState) -> (r: WalkState)
    ensures
        r@ == element_style(name@, state@.0, state@.1),
{
    if same_text(name, "b") && !state.bold {
        WalkState { bold: true, italic: state.italic }
    } else if same_text(name, "i") && !state.italic {
        WalkState { bold: state.bold, italic: true }
    } else {
        WalkState { bold: state.bold, italic: state.italic }
    }
}

proof fn lemma_views_concat(b1: Seq<Block>, b2: Seq<Block>, s1: Seq<Span>, s2: Seq<Span>)
    ensures
        blocks_view(b1 + b2) == blocks_view(b1) + blocks_view(b2),
        spans_view(s1 + s2) == spans_view(s1) + spans_view(s2),
{
    assert(blocks_view(b1 + b2) =~= blocks_view(b1) + blocks_view(b2));
    assert(spans_view(s1 + s2) =~= spans_view(s1) + spans_view(s2));
}

proof fn lemma_walk_children_prefix(s: Seq<DomNode>, i: int, bold: bool, italic: bool)
    requires
        0 <= i < s.len(),
    ensures
        walk_children(s.take(i + 1), bold, italic) == ({
            let front = walk_children(s.take(i), bold, italic);
            let back = walk_node(s[i], bold, italic);
            (front.0 + back.0, front.1 + back.1)
        }),
{
    assert(s.take(i + 1).drop_last() =~= s.take(i));
}

/// Walks a node: returns the blocks it yields, and the spans of its text
/// that no block of its own takes in (the caller's block takes them).
/// Text that is only white space yields nothing; other text yields a span
/// styled by the state; `div`, `p`, `h1`, `h2` and `h3` yield a block
/// (see `new_block`); `b` and `i` make their content bold or italic; any
/// other node passes on what its children yield, in order.
pub fn walk(node: &DomNode, state: &WalkState) -> (res: (Vec<Block>, Vec<Span>))
    requires
        node_supported(*node, state@.0, state@.1),
    ensures
        blocks_view(res.0@) == walk_node(*node, state@.0, state@.1).0,
        spans_view(res.1@) == walk_node(*node, state@.0, state@.1).1,
    decreases node, 2int,
{
    match node {
        DomNode::Text { contents } => {
            if !text_is_blank(contents.as_str()) {
                let class = match (state.bold, state.italic) {
                    (true, _) => SpanClass::Bold,
                    (false, true) => SpanClass::Italic,
                    (false, false) => SpanClass::Regular,
                };
                let spans = vec![Span::Text { class: class, content: contents.clone() }];
                proof {
                    assert(spans_view(spans@) =~= walk_node(*node, state@.0, state@.1).1);
                }
                return (vec![], spans);
            }
            let blocks: Vec<Block> = vec![];
            let spans: Vec<Span> = vec![];
            proof {
                assert(blocks_view(blocks@) =~= seq![]);
                assert(spans_view(spans@) =~= seq![]);
            }
            (blocks, spans)
        },
        DomNode::Element { namespace: _, name, children } => {
            match block_class_for(name.as_str()) {
                Some(class) => {
                    let blocks = new_block(node, state, class);
                    let spans: Vec<Span> = vec![];
                    proof {
                        assert(spans_view(spans@) =~= seq![]);
                    }
                    (blocks, spans)
                },
                None => {
                    let inner = style_for(name.as_str(), state);
                    walk_nodes(children, &inner)
                },
            }
        },
        DomNode::Other { children } => walk_nodes(children, state),
    }
}

/// Walks sibling nodes in order and joins what they yield.
fn walk_nodes(nodes: &Vec<DomNode>, state: &WalkState) -> (res: (Vec<Block>, Vec<Span>))
    requires
        all_supported(nodes@, state@.0, state@.1),
    ensures
        blocks_view(res.0@) == walk_children(nodes@, state@.0, state@.1).0,
        spans_view(res.1@) == walk_children(nodes@, state@.0, state@.1).1,
    decreases nodes, 0int,
{
    let mut blocks: Vec<Block> = Vec::new();
    let mut spans: Vec<Span> = Vec::new();
    let n = nodes.len();
    let mut i: usize = 0;
    proof {
        assert(nodes@.take(0) =~= Seq::<DomNode>::empty());
        assert(blocks_view(blocks@) =~= seq![]);
        assert(spans_view(spans@) =~= seq![]);
    }
    while i < n
        invariant
            n == nodes.len(),
            i <= n,
            all_supported(nodes@, state@.0, state@.1),
            blocks_view(blocks@) == walk_children(nodes@.take(i as int), state@.0, state@.1).0,
            spans_view(spans@) == walk_children(nodes@.take(i as int), state@.0, state@.1).1,
        decreases n - i,
    {
        proof {
            lemma_walk_children_prefix(nodes@, i as int, state@.0, state@.1);
        }
        let (mut new_blocks, mut new_spans) = walk(&nodes[i], state);
        let ghost old_blocks = blocks@;
        let ghost old_spans = spans@;
        blocks.append(&mut new_blocks);
        spans.append(&mut new_spans);
        proof {
            lemma_views_concat(old_blocks, new_blocks@, old_spans, new_spans@);
        }
        i = i + 1;
    }
    proof {
        assert(nodes@.take(n as int) =~= nodes@);
    }
    (blocks, spans)
}

/// Walks the children of `node` and returns the blocks they yield, followed
/// by one new block of class `class` that holds the spans they yield.
pub fn new_block(node: &DomNode, state: &WalkState, class: BlockClass) -> (blocks: Vec<Block>)
    requires
        all_supported(children_of(*node), state@.0, state@.1),
    ensures
        blocks_view(blocks@) == new_block_view(children_of(*node), state@.0, state@.1, class),
    decreases node, 1int,
{
    let (mut blocks, spans) = match node {
        DomNode::Text { .. } => {
            let b: Vec<Block> = Vec::new();
            let s: Vec<Span> = Vec::new();
            proof {
                assert(blocks_view(b@) =~= seq![]);
                assert(spans_view(s@) =~= seq![]);
            }
            (b, s)
        },
        DomNode::Element { children, .. } => walk_nodes(children, state),
        DomNode::Other { children } => walk_nodes(children, state),
    };
    let ghost before = blocks@;
    blocks.push(Block { content: spans, class });
    proof {
        assert(blocks_view(blocks@) =~= blocks_view(before).push(blocks@.last()@));
    }
    blocks
}

proof fn lemma_trace_children_stops(s: Seq<DomNode>, k: int, j: int, bold: bool, italic: bool)
    requires
        0 <= k <= j <= s.len(),
        !trace_children(s.take(k), bold, italic).1,
    ensures
        trace_children(s.take(j), bold, italic) == trace_children(s.take(k), bold, italic),
    decreases j - k,
{
    if j > k {
        lemma_trace_children_stops(s, k, j - 1, bold, italic);
        assert(s.take(j).drop_last() =~= s.take(j - 1));
    }
}

/// The element names that the walk of `node` in `state` announces, in order,
/// and whether it gets through the whole tree (see `trace_node`).
pub fn element_trace(node: &DomNode, state: &WalkState) -> (r: (Vec<String>, bool))
    ensures
        strings_view(r.0@) == trace_node(*node, state@.0, state@.1).0,
        r.1 == trace_node(*node, state@.0, state@.1).1,
    decreases node, 1int,
{
    match node {
        DomNode::Text { contents } => {
            let names: Vec<String> = Vec::new();
            proof {
                assert(strings_view(names@) =~= seq![]);
            }
            (names, !(state.bold && state.italic) || text_is_blank(contents.as_str()))
        },
        DomNode::Element { namespace, name, children } => {
            if !same_text(namespace.as_str(), "http://www.w3.org/1999/xhtml") {
                let names: Vec<String> = Vec::new();
                proof {
                    assert(strings_view(names@) =~= seq![]);
                }
                return (names, false);
            }
            let mut names: Vec<String> = Vec::new();
            names.push(name.clone());
            if (same_text(name.as_str(), "b") && !state.bold) || (same_text(name.as_str(), "i")
                && !state.italic) {
                names.push(name.clone());
            }
            proof {
                assert(strings_view(names@) =~= element_announcements(name@, state@.0, state@.1));
            }
            let inner_state = match block_class_for(name.as_str()) {
                Some(_) => WalkState { bold: state.bold, italic: state.italic },
                None => style_for(name.as_str(), state),
            };
            let (mut inner, ok) = trace_nodes(children, &inner_state);
            let ghost before = names@;
            let ghost added = inner@;
            names.append(&mut inner);
            proof {
                assert(strings_view(before + added) =~= strings_view(before) + strings_view(added));
            }
            (names, ok)
        },
        DomNode::Other { children } => trace_nodes(children, state),
    }
}

/// The trace of sibling nodes, one after the other, up to the first that
/// stops the walk.
fn trace_nodes(nodes: &Vec<DomNode>, state: &WalkState) -> (r: (Vec<String>, bool))
    ensures
        strings_view(r.0@) == trace_children(nodes@, state@.0, state@.1).0,
        r.1 == trace_children(nodes@, state@.0, state@.1).1,
    decreases nodes, 0int,
{
    let mut names: Vec<String> = Vec::new();
    let n = nodes.len();
    let mut i: usize = 0;
    proof {
        assert(nodes@.take(0) =~= Seq::<DomNode>::empty());
        assert(strings_view(names@) =~= seq![]);
    }
    while i < n
        invariant
            n == nodes.len(),
            i <= n,
            strings_view(names@) == trace_children(nodes@.take(i as int), state@.0, state@.1).0,
            trace_children(nodes@.take(i as int), state@.0, state@.1).1,
        decreases n - i,
    {
        proof {
            assert(nodes@.take(i + 1).drop_last() =~= nodes@.take(i as int));
        }
        let (mut more, ok) = element_trace(&nodes[i], state);
        let ghost before = names@;
        let ghost added = more@;
        names.append(&mut more);
        proof {
            assert(strings_view(before + added) =~= strings_view(before) + strings_view(added));
        }
        if !ok {
            proof {
                lemma_trace_children_stops(nodes@, i + 1, n as int, state@.0, state@.1);
                assert(nodes@.take(n as int) =~= nodes@);
            }
            return (names, false);
        }
        i = i + 1;
    }
    proof {
        assert(nodes@.take(n as int) =~= nodes@);
    }
    (names, true)
}

/// Whether the walk is defined on `node` in `state`: every element is in the
/// HTML namespace and no visible text stands inside both `<b>` and `<i>`.
pub fn is_supported(node: &DomNode, state: &WalkState) -> (r: bool)
    ensures
        r == node_supported(*node, state@.0, state@.1),
    decreases node, 1int,
{
    match node {
        DomNode::Text { contents } => !(state.bold && state.italic) || text_is_blank(contents.as_str()),
        DomNode::Element { namespace, name, children } => {
            if !same_text(namespace.as_str(), "http://www.w3.org/1999/xhtml") {
                return false;
            }
            match block_class_for(name.as_str()) {
                Some(_) => all_nodes_supported(children, state),
                None => {
                    let inner = style_for(name.as_str(), state);
                    all_nodes_supported(children, &inner)
                },
            }
        },
        DomNode::Other { children } => all_nodes_supported(children, state),
    }
}

/// Whether every node of `nodes` is supported in `state`.
fn all_nodes_supported(nodes: &Vec<DomNode>, state: &WalkState) -> (r: bool)
    ensures
        r == all_supported(nodes@, state@.0, state@.1),
    decreases nodes, 0int,
{
    let n = nodes.len();
    let mut i: usize = 0;
    while i < n
        invariant
            n == nodes.len(),
            i <= n,
            forall|j: int| 0 <= j < i ==> node_supported(#[trigger] nodes@[j], state@.0, state@.1),
        decreases n - i,
    {
        if !is_supported(&nodes[i], state) {
            return false;
        }
        i = i + 1;
    }
    true
}

/// The blocks of a whole document tree, walked from its root in the plain
/// state; text outside every block is left out.
pub fn document_blocks(dom: &DomNode) -> (blocks: Vec<Block>)
    requires
        node_supported(*dom, false, false),
    ensures
        blocks_view(blocks@) == walk_node(*dom, false, false).0,
{
    let state = WalkState::default();
    walk(dom, &state).0
}

/// Parses `input` as an HTML document and returns its blocks.
pub fn parse_html(input: String) -> (blocks: Vec<Block>)
    requires
        node_supported(html5ever_document(input@), false, false),
    ensures
        blocks_view(blocks@) == walk_node(html5ever_document(input@), false, false).0,
{
    let dom = parse_document_tree(input.as_str());
    document_blocks(&dom)
}

/// Parses `input` as an HTML document and returns its blocks, or `None`
/// where the parsed tree holds an element outside the HTML namespace or
/// visible text inside both `<b>` and `<i>`.
pub fn try_parse_html(input: String) -> (blocks: Option<Vec<Block>>)
    ensures
        blocks is None <==> !node_supported(html5ever_document(input@), false, false),
        blocks matches Some(b) ==> blocks_view(b@) == walk_node(html5ever_document(input@), false, false).0,
{
    let dom = parse_document_tree(input.as_str());
    let state = WalkState::default();
    if is_supported(&dom, &state) {
        Some(parse_html(input))
    } else {
        None
    }
}

/// Parses `input` as an HTML document; returns the element names that the
/// walk announces (see `trace_node`), up to where it stops, and the blocks,
/// or `None` where the walk is not defined on the tree.
pub fn parse_html_traced(input: String) -> (r: (Vec<String>, Option<Vec<Block>>))
    ensures
        strings_view(r.0@) == trace_node(html5ever_document(input@), false, false).0,
        r.1 is None <==> !node_supported(html5ever_document(input@), false, false),
        r.1 matches Some(b) ==> blocks_view(b@) == walk_node(html5ever_document(input@), false, false).0,
{
    let dom = parse_document_tree(input.as_str());
    let state = WalkState::default();
    let (names, complete) = element_trace(&dom, &state);
    proof {
        crate::laws::lemma_trace_completes_iff_supported(dom, false, false);
    }
    if complete {
        (names, Some(parse_html(input)))
    } else {
        (names, None)
    }
}

} // verus!
