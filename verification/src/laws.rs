//! What the block builder keeps for every document tree.
use vstd::prelude::*;
use crate::dom::{DomNode, html_namespace, is_blank};
use crate::render::{block_runs_view, document_runs_view, heading_percent};
use crate::html::{new_block_view, BlockClass, SpanClass, all_supported, node_supported, trace_children, trace_node, BlockView, SpanView, block_class_of, element_style, walk_children, walk_node};

verus! {

broadcast use vstd::seq_lib::lemma_multiset_commutative;

/// The texts of a tree's non-blank text nodes, in document order.
pub open spec fn visible_texts(n: DomNode) -> Seq<Seq<char>>
    decreases n,
{
    match n {
        DomNode::Text { contents } => if is_blank(contents@) {
            seq![]
        } else {
            seq![contents@]
        },
        DomNode::Element { children, .. } => visible_texts_of(children@),
        DomNode::Other { children } => visible_texts_of(children@),
    }
}

/// The visible texts of sibling trees, one after the other.
pub open spec fn visible_texts_of(s: Seq<DomNode>) -> Seq<Seq<char>>
    decreases s,
{
    if s.len() == 0 {
        seq![]
    } else {
        visible_texts_of(s.drop_last()) + visible_texts(s.last())
    }
}

/// How many elements of the tree open a block (`div`, `p`, `h1`, `h2`, `h3`).
pub open spec fn block_elements(n: DomNode) -> nat
    decreases n,
{
    match n {
        DomNode::Text { .. } => 0,
        DomNode::Element { name, children, .. } => block_elements_of(children@) + if block_class_of(
            name@,
        ) is Some {
            1nat
        } else {
            0nat
        },
        DomNode::Other { children } => block_elements_of(children@),
    }
}

/// How many block-opening elements sibling trees hold together.
pub open spec fn block_elements_of(s: Seq<DomNode>) -> nat
    decreases s,
{
    if s.len() == 0 {
        0
    } else {
        block_elements_of(s.drop_last()) + block_elements(s.last())
    }
}

/// The texts of spans, in order.
pub open spec fn span_texts(s: Seq<SpanView>) -> Seq<Seq<char>> {
    s.map_values(|x: SpanView| x.content)
}

/// The texts of the spans of blocks, block after block.
pub open spec fn block_texts(bs: Seq<BlockView>) -> Seq<Seq<char>>
    decreases bs.len(),
{
    if bs.len() == 0 {
        seq![]
    } else {
        block_texts(bs.drop_last()) + span_texts(bs.last().content)
    }
}

/// Every text that the walk yields, in blocks or outside them.
pub open spec fn yielded_texts(r: (Seq<BlockView>, Seq<SpanView>)) -> Seq<Seq<char>> {
    block_texts(r.0) + span_texts(r.1)
}

proof fn lemma_span_texts_concat(a: Seq<SpanView>, b: Seq<SpanView>)
    ensures
        span_texts(a + b) == span_texts(a) + span_texts(b),
{
    assert(span_texts(a + b) =~= span_texts(a) + span_texts(b));
}

proof fn lemma_block_texts_concat(a: Seq<BlockView>, b: Seq<BlockView>)
    ensures
        block_texts(a + b) == block_texts(a) + block_texts(b),
    decreases b.len(),
{
    if b.len() == 0 {
        assert(a + b =~= a);
        assert(block_texts(a) + block_texts(b) =~= block_texts(a));
    } else {
        lemma_block_texts_concat(a, b.drop_last());
        assert((a + b).drop_last() =~= a + b.drop_last());
        assert((a + b).last() == b.last());
        assert(block_texts(a + b) =~= block_texts(a) + block_texts(b));
    }
}

/// Walking a tree loses no visible text and invents none: the texts of the
/// spans it yields, inside blocks and outside them, are as a multiset the
/// non-blank text nodes of the tree.
pub proof fn lemma_walk_keeps_visible_text(n: DomNode, bold: bool, italic: bool)
    ensures
        yielded_texts(walk_node(n, bold, italic)).to_multiset() == visible_texts(n).to_multiset(),
    decreases n,
{
    match n {
        DomNode::Text { contents } => {
            if is_blank(contents@) {
                assert(yielded_texts(walk_node(n, bold, italic)) =~= seq![]);
            } else {
                assert(yielded_texts(walk_node(n, bold, italic)) =~= seq![contents@]);
            }
        },
        DomNode::Element { namespace, name, children } => {
            match block_class_of(name@) {
                Some(class) => {
                    lemma_walk_children_keeps_visible_text(children@, bold, italic);
                    let inner = walk_children(children@, bold, italic);
                    let b = BlockView { class, content: inner.1 };
                    assert(inner.0.push(b).drop_last() =~= inner.0);
                    assert(yielded_texts(walk_node(n, bold, italic)) =~= block_texts(inner.0)
                        + span_texts(inner.1));
                },
                None => {
                    let style = element_style(name@, bold, italic);
                    lemma_walk_children_keeps_visible_text(children@, style.0, style.1);
                },
            }
        },
        DomNode::Other { children } => {
            lemma_walk_children_keeps_visible_text(children@, bold, italic);
        },
    }
}

/// The same, for sibling trees walked one after the other.
pub proof fn lemma_walk_children_keeps_visible_text(s: Seq<DomNode>, bold: bool, italic: bool)
    ensures
        yielded_texts(walk_children(s, bold, italic)).to_multiset() == visible_texts_of(s).to_multiset(),
    decreases s,
{
    if s.len() == 0 {
        assert(yielded_texts(walk_children(s, bold, italic)) =~= seq![]);
    } else {
        lemma_walk_children_keeps_visible_text(s.drop_last(), bold, italic);
        lemma_walk_keeps_visible_text(s.last(), bold, italic);
        let front = walk_children(s.drop_last(), bold, italic);
        let back = walk_node(s.last(), bold, italic);
        lemma_block_texts_concat(front.0, back.0);
        lemma_span_texts_concat(front.1, back.1);
        let a = block_texts(front.0);
        let b = block_texts(back.0);
        let c = span_texts(front.1);
        let d = span_texts(back.1);
        assert(yielded_texts(walk_children(s, bold, italic)) == (a + b) + (c + d));
        assert(((a + b) + (c + d)).to_multiset() =~= (a + c).to_multiset().add(
            (b + d).to_multiset(),
        ));
    }
}

/// Every element that opens a block yields exactly one block, and nothing
/// else does: the walk yields as many blocks as the tree has `div`, `p`,
/// `h1`, `h2` and `h3` elements.
pub proof fn lemma_walk_block_count(n: DomNode, bold: bool, italic: bool)
    ensures
        walk_node(n, bold, italic).0.len() == block_elements(n),
    decreases n,
{
    match n {
        DomNode::Text { .. } => {},
        DomNode::Element { namespace, name, children } => {
            match block_class_of(name@) {
                Some(class) => {
                    lemma_walk_children_block_count(children@, bold, italic);
                },
                None => {
                    let style = element_style(name@, bold, italic);
                    lemma_walk_children_block_count(children@, style.0, style.1);
                },
            }
        },
        DomNode::Other { children } => {
            lemma_walk_children_block_count(children@, bold, italic);
        },
    }
}

/// The same, for sibling trees walked one after the other.
pub proof fn lemma_walk_children_block_count(s: Seq<DomNode>, bold: bool, italic: bool)
    ensures
        walk_children(s, bold, italic).0.len() == block_elements_of(s),
    decreases s,
{
    if s.len() > 0 {
        lemma_walk_children_block_count(s.drop_last(), bold, italic);
        lemma_walk_block_count(s.last(), bold, italic);
    }
}

proof fn lemma_visible_texts_not_blank(n: DomNode)
    ensures
        forall|i: int| 0 <= i < visible_texts(n).len() ==> !is_blank(#[trigger] visible_texts(n)[i]),
    decreases n,
{
    if let DomNode::Element { children, .. } = n {
        lemma_visible_texts_of_not_blank(children@);
        assert(visible_texts(n) == visible_texts_of(children@));
    } else if let DomNode::Other { children } = n {
        lemma_visible_texts_of_not_blank(children@);
        assert(visible_texts(n) == visible_texts_of(children@));
    } else {
        let c = n->contents;
        let t = visible_texts(n);
        if !is_blank(c@) {
            assert(t =~= seq![c@]);
            assert forall|i: int| 0 <= i < t.len() implies !is_blank(#[trigger] t[i]) by {
                assert(t[i] == c@);
            }
        } else {
            assert(t.len() == 0);
        }
    }
}

proof fn lemma_visible_texts_of_not_blank(s: Seq<DomNode>)
    ensures
        forall|i: int| 0 <= i < visible_texts_of(s).len() ==> !is_blank(#[trigger] visible_texts_of(s)[i]),
    decreases s,
{
    if s.len() > 0 {
        lemma_visible_texts_of_not_blank(s.drop_last());
        lemma_visible_texts_not_blank(s.last());
        let a = visible_texts_of(s.drop_last());
        let b = visible_texts(s.last());
        assert forall|i: int| 0 <= i < visible_texts_of(s).len() implies !is_blank(
            #[trigger] visible_texts_of(s)[i],
        ) by {
            if i < a.len() {
                assert(visible_texts_of(s)[i] == a[i]);
            } else {
                assert(visible_texts_of(s)[i] == b[i - a.len()]);
            }
        }
    }
}

/// No span that the walk yields is blank: text that is only white space is
/// dropped.
pub proof fn lemma_walk_yields_no_blank_text(n: DomNode, bold: bool, italic: bool)
    ensures
        forall|i: int|
            0 <= i < yielded_texts(walk_node(n, bold, italic)).len() ==> !is_blank(
                #[trigger] yielded_texts(walk_node(n, bold, italic))[i],
            ),
{
    broadcast use vstd::seq_lib::group_to_multiset_ensures;

    lemma_walk_keeps_visible_text(n, bold, italic);
    lemma_visible_texts_not_blank(n);
    let y = yielded_texts(walk_node(n, bold, italic));
    let v = visible_texts(n);
    assert forall|i: int| 0 <= i < y.len() implies !is_blank(#[trigger] y[i]) by {
        assert(y.contains(y[i]));
        assert(y.to_multiset().count(y[i]) > 0);
        assert(v.to_multiset().count(y[i]) > 0);
        let j = choose|j: int| 0 <= j < v.len() && v[j] == y[i];
        assert(!is_blank(v[j]));
    }
}

/// The blocks built from a tree hold only the tree's visible text, each
/// text node at most once (text outside every block is what is left over).
pub proof fn lemma_blocks_hold_visible_text(n: DomNode, bold: bool, italic: bool)
    ensures
        block_texts(walk_node(n, bold, italic).0).to_multiset().subset_of(visible_texts(n).to_multiset()),
{
    broadcast use vstd::multiset::group_multiset_axioms;

    lemma_walk_keeps_visible_text(n, bold, italic);
    let r = walk_node(n, bold, italic);
    let a = block_texts(r.0).to_multiset();
    let b = span_texts(r.1).to_multiset();
    assert(yielded_texts(r).to_multiset() == a.add(b));
    assert(a.subset_of(a.add(b)));
}

/// Laying blocks out keeps their text: the texts of the runs of a list of
/// blocks are the texts of its spans, block after block and in order.
pub proof fn lemma_runs_keep_block_text(bs: Seq<BlockView>)
    ensures
        document_runs_view(bs).map_values(|r: (Seq<char>, u32)| r.0) == block_texts(bs),
    decreases bs.len(),
{
    if bs.len() > 0 {
        lemma_runs_keep_block_text(bs.drop_last());
        let f = |r: (Seq<char>, u32)| r.0;
        let front = crate::render::document_runs_view(bs.drop_last());
        let back = crate::render::block_runs_view(bs.last());
        assert((front + back).map_values(f) =~= front.map_values(f) + back.map_values(f));
        assert(back.map_values(f) =~= span_texts(bs.last().content));
    }
}

/// The walk gets through a tree exactly when it is defined on it: the
/// element trace completes if and only if the tree is supported.
pub proof fn lemma_trace_completes_iff_supported(n: DomNode, bold: bool, italic: bool)
    ensures
        trace_node(n, bold, italic).1 == node_supported(n, bold, italic),
    decreases n,
{
    match n {
        DomNode::Text { .. } => {},
        DomNode::Element { namespace, name, children } => {
            match block_class_of(name@) {
                Some(_) => lemma_trace_children_completes_iff_supported(children@, bold, italic),
                None => {
                    let style = element_style(name@, bold, italic);
                    lemma_trace_children_completes_iff_supported(children@, style.0, style.1);
                },
            }
        },
        DomNode::Other { children } => {
            lemma_trace_children_completes_iff_supported(children@, bold, italic);
        },
    }
}

/// The same, for sibling trees.
pub proof fn lemma_trace_children_completes_iff_supported(s: Seq<DomNode>, bold: bool, italic: bool)
    ensures
        trace_children(s, bold, italic).1 == all_supported(s, bold, italic),
    decreases s,
{
    if s.len() > 0 {
        let f = s.drop_last();
        lemma_trace_children_completes_iff_supported(f, bold, italic);
        lemma_trace_completes_iff_supported(s.last(), bold, italic);
        if all_supported(s, bold, italic) {
            assert forall|i: int| 0 <= i < f.len() implies node_supported(#[trigger] f[i], bold, italic) by {
                assert(f[i] == s[i]);
            }
            assert(node_supported(s[s.len() - 1], bold, italic));
        } else {
            let i = choose|i: int| 0 <= i < s.len() && !node_supported(#[trigger] s[i], bold, italic);
            if i < s.len() - 1 {
                assert(f[i] == s[i]);
            }
        }
    }
}

/// The block class that an element name opens, as the viewer's HTML
/// subset defines it: `div` and `p` paragraphs, `h1`, `h2`, `h3` headings.
pub open spec fn opens_block(name: Seq<char>, class: BlockClass) -> bool {
    ||| name == "div"@ && class == BlockClass::Paragraph
    ||| name == "p"@ && class == BlockClass::Paragraph
    ||| name == "h1"@ && class == BlockClass::H1
    ||| name == "h2"@ && class == BlockClass::H2
    ||| name == "h3"@ && class == BlockClass::H3
}

/// A block-opening element yields exactly one block of its own, after the
/// blocks of its children, and that block holds every span its children
/// yield outside their own blocks, in order; the element yields no loose
/// spans.
pub proof fn lemma_block_element_takes_its_spans(
    namespace: String,
    name: String,
    children: Vec<DomNode>,
    bold: bool,
    italic: bool,
    class: BlockClass,
)
    requires
        opens_block(name@, class),
    ensures
        ({
            let r = walk_node(DomNode::Element { namespace, name, children }, bold, italic);
            let inner = walk_children(children@, bold, italic);
            &&& r.1 == Seq::<SpanView>::empty()
            &&& r.0 == inner.0.push(BlockView { class, content: inner.1 })
        }),
{
    reveal_strlit("div");
    reveal_strlit("p");
    reveal_strlit("h1");
    reveal_strlit("h2");
    reveal_strlit("h3");
    reveal_strlit("b");
    reveal_strlit("i");
    assert("h2"@[1] != "h1"@[1]);
    assert("h3"@[1] != "h1"@[1]);
    assert("h3"@[1] != "h2"@[1]);
    assert("h1"@.len() == 2);
    assert("p"@.len() == 1);
    assert("h1"@ != "p"@ && "h2"@ != "p"@ && "h3"@ != "p"@);
    assert("h2"@ != "h1"@ && "h3"@ != "h1"@ && "h3"@ != "h2"@);
    assert(block_class_of(name@) == Some(class));
}

/// `b` makes everything inside it bold, `i` everything inside it italic,
/// whatever the state it is met in; other elements that open no block pass
/// on what their children yield, in the same state.
pub proof fn lemma_inline_elements(namespace: String, name: String, children: Vec<DomNode>, bold: bool, italic: bool)
    ensures
        name@ == "b"@ ==> walk_node(DomNode::Element { namespace, name, children }, bold, italic)
            == walk_children(children@, true, italic),
        name@ == "i"@ ==> walk_node(DomNode::Element { namespace, name, children }, bold, italic)
            == walk_children(children@, bold, true),
        (name@ != "b"@ && name@ != "i"@ && forall|c: BlockClass| !opens_block(name@, c)) ==> walk_node(
            DomNode::Element { namespace, name, children },
            bold,
            italic,
        ) == walk_children(children@, bold, italic),
{
    reveal_strlit("div");
    reveal_strlit("p");
    reveal_strlit("h1");
    reveal_strlit("h2");
    reveal_strlit("h3");
    reveal_strlit("b");
    reveal_strlit("i");
    if name@ == "b"@ || name@ == "i"@ {
        assert("b"@[0] != "p"@[0]);
        assert("i"@[0] != "p"@[0]);
        assert(name@ != "p"@);
        assert(block_class_of(name@) is None);
    }
    if forall|c: BlockClass| !opens_block(name@, c) {
        assert(!opens_block(name@, BlockClass::Paragraph));
        assert(!opens_block(name@, BlockClass::H1));
        assert(!opens_block(name@, BlockClass::H2));
        assert(!opens_block(name@, BlockClass::H3));
        assert(block_class_of(name@) is None);
    }
}

/// Styles only accumulate: the children of an element are walked at least
/// as bold and at least as italic as the element itself.
pub proof fn lemma_styles_accumulate(name: Seq<char>, bold: bool, italic: bool)
    ensures
        bold ==> element_style(name, bold, italic).0,
        italic ==> element_style(name, bold, italic).1,
{
}

/// Every span of `s` is bold where `bold` holds, and not regular where
/// `italic` holds.
pub open spec fn spans_styled(s: Seq<SpanView>, bold: bool, italic: bool) -> bool {
    forall|k: int|
        0 <= k < s.len() ==> (bold ==> (#[trigger] s[k]).class == SpanClass::Bold) && (italic
            ==> s[k].class != SpanClass::Regular)
}

/// Every span in every block of `bs` is styled as `spans_styled` says.
pub open spec fn blocks_styled(bs: Seq<BlockView>, bold: bool, italic: bool) -> bool {
    forall|j: int| 0 <= j < bs.len() ==> spans_styled((#[trigger] bs[j]).content, bold, italic)
}

proof fn lemma_styled_weaken(r: (Seq<BlockView>, Seq<SpanView>), b1: bool, i1: bool, b0: bool, i0: bool)
    requires
        blocks_styled(r.0, b1, i1),
        spans_styled(r.1, b1, i1),
        b0 ==> b1,
        i0 ==> i1,
    ensures
        blocks_styled(r.0, b0, i0),
        spans_styled(r.1, b0, i0),
{
    assert forall|j: int| 0 <= j < r.0.len() implies spans_styled((#[trigger] r.0[j]).content, b0, i0) by {
        assert(spans_styled(r.0[j].content, b1, i1));
    }
}

/// Text is never less styled than the state it is met in: walked inside a
/// `<b>`, every span the walk yields (in blocks or outside them) is bold;
/// inside an `<i>`, none is regular.
pub proof fn lemma_walk_respects_style(n: DomNode, bold: bool, italic: bool)
    ensures
        blocks_styled(walk_node(n, bold, italic).0, bold, italic),
        spans_styled(walk_node(n, bold, italic).1, bold, italic),
    decreases n,
{
    match n {
        DomNode::Text { contents } => {},
        DomNode::Element { namespace, name, children } => {
            match block_class_of(name@) {
                Some(class) => {
                    lemma_walk_children_respects_style(children@, bold, italic);
                    let inner = walk_children(children@, bold, italic);
                    let r = inner.0.push(BlockView { class, content: inner.1 });
                    assert forall|j: int| 0 <= j < r.len() implies spans_styled(
                        (#[trigger] r[j]).content,
                        bold,
                        italic,
                    ) by {
                        if j < inner.0.len() {
                            assert(r[j] == inner.0[j]);
                        }
                    }
                },
                None => {
                    let style = element_style(name@, bold, italic);
                    lemma_walk_children_respects_style(children@, style.0, style.1);
                    lemma_styled_weaken(walk_children(children@, style.0, style.1), style.0, style.1, bold, italic);
                },
            }
        },
        DomNode::Other { children } => {
            lemma_walk_children_respects_style(children@, bold, italic);
        },
    }
}

/// The same, for sibling trees walked one after the other.
pub proof fn lemma_walk_children_respects_style(s: Seq<DomNode>, bold: bool, italic: bool)
    ensures
        blocks_styled(walk_children(s, bold, italic).0, bold, italic),
        spans_styled(walk_children(s, bold, italic).1, bold, italic),
    decreases s,
{
    if s.len() > 0 {
        lemma_walk_children_respects_style(s.drop_last(), bold, italic);
        lemma_walk_respects_style(s.last(), bold, italic);
        let front = walk_children(s.drop_last(), bold, italic);
        let back = walk_node(s.last(), bold, italic);
        let bs = front.0 + back.0;
        let ss = front.1 + back.1;
        assert forall|j: int| 0 <= j < bs.len() implies spans_styled((#[trigger] bs[j]).content, bold, italic) by {
            if j < front.0.len() {
                assert(bs[j] == front.0[j]);
            } else {
                assert(bs[j] == back.0[j - front.0.len()]);
            }
        }
        assert forall|k: int| 0 <= k < ss.len() implies (bold ==> (#[trigger] ss[k]).class == SpanClass::Bold)
            && (italic ==> ss[k].class != SpanClass::Regular) by {
            if k < front.1.len() {
                assert(ss[k] == front.1[k]);
            } else {
                assert(ss[k] == back.1[k - front.1.len()]);
            }
        }
    }
}

/// Every element of the tree is in the HTML namespace, and none is a `b`
/// or an `i`.
pub open spec fn html_without_styles(n: DomNode) -> bool
    decreases n,
{
    match n {
        DomNode::Text { .. } => true,
        DomNode::Element { namespace, name, children } => {
            &&& namespace@ == html_namespace()
            &&& name@ != "b"@
            &&& name@ != "i"@
            &&& forall|k: int| 0 <= k < children.len() ==> html_without_styles(#[trigger] children@[k])
        },
        DomNode::Other { children } => forall|k: int|
            0 <= k < children.len() ==> html_without_styles(#[trigger] children@[k]),
    }
}

/// Support depends only on namespaces and on bold italic text: a tree of
/// HTML elements with no `b` or `i` in it is supported in any state that is
/// not already both bold and italic, however its blocks nest.
pub proof fn lemma_plain_html_is_supported(n: DomNode, bold: bool, italic: bool)
    requires
        html_without_styles(n),
        !(bold && italic),
    ensures
        node_supported(n, bold, italic),
    decreases n,
{
    match n {
        DomNode::Text { .. } => {},
        DomNode::Element { namespace, name, children } => {
            assert forall|k: int| 0 <= k < children.len() implies node_supported(
                #[trigger] children@[k],
                bold,
                italic,
            ) by {
                lemma_plain_html_is_supported(children@[k], bold, italic);
            }
            assert(element_style(name@, bold, italic) == (bold, italic));
        },
        DomNode::Other { children } => {
            assert forall|k: int| 0 <= k < children.len() implies node_supported(
                #[trigger] children@[k],
                bold,
                italic,
            ) by {
                lemma_plain_html_is_supported(children@[k], bold, italic);
            }
        },
    }
}

/// A block-opening HTML element is supported exactly when all its children
/// are, in the same state: blocks may hold blocks.
pub proof fn lemma_block_element_support(
    namespace: String,
    name: String,
    children: Vec<DomNode>,
    bold: bool,
    italic: bool,
    class: BlockClass,
)
    requires
        namespace@ == html_namespace(),
        opens_block(name@, class),
    ensures
        node_supported(DomNode::Element { namespace, name, children }, bold, italic) == all_supported(
            children@,
            bold,
            italic,
        ),
{
    reveal_strlit("div");
    reveal_strlit("p");
    reveal_strlit("h1");
    reveal_strlit("h2");
    reveal_strlit("h3");
    assert("h1"@.len() == 2);
    assert("p"@.len() == 1);
    assert("h2"@[1] != "h1"@[1]);
    assert("h3"@[1] != "h1"@[1]);
    assert("h3"@[1] != "h2"@[1]);
    assert("h1"@ != "p"@ && "h2"@ != "p"@ && "h3"@ != "p"@);
    assert("h2"@ != "h1"@ && "h3"@ != "h1"@ && "h3"@ != "h2"@);
    assert(block_class_of(name@) == Some(class));
    let n = DomNode::Element { namespace, name, children };
    if all_supported(children@, bold, italic) {
        assert forall|i: int| 0 <= i < children.len() implies node_supported(
            #[trigger] children@[i],
            bold,
            italic,
        ) by {}
        assert(node_supported(n, bold, italic));
    }
    if node_supported(n, bold, italic) {
        assert(n is Element);
        assert(n->Element_children == children);
        assert(block_class_of(n->Element_name@) is Some);
        assert(forall|i: int| 0 <= i < children.len() ==> node_supported(#[trigger] children@[i], bold, italic));
        assert forall|i: int| 0 <= i < children@.len() implies node_supported(
            #[trigger] children@[i],
            bold,
            italic,
        ) by {}
        assert(all_supported(children@, bold, italic));
    }
}

/// The trace of an element: an HTML element announces its own name first,
/// once, or twice when it is a `b` met while bold is off or an `i` met while
/// italic is off; then come the announcements of its children, walked in the
/// element's style. An element outside the HTML namespace stops the walk
/// before it announces anything.
pub proof fn lemma_element_trace(namespace: String, name: String, children: Vec<DomNode>, bold: bool, italic: bool)
    ensures
        ({
            let t = trace_node(DomNode::Element { namespace, name, children }, bold, italic);
            &&& namespace@ != html_namespace() ==> t == (Seq::<Seq<char>>::empty(), false)
            &&& namespace@ == html_namespace() ==> t.0.len() >= 1 && t.0[0] == name@
            &&& (namespace@ == html_namespace() && name@ != "b"@ && name@ != "i"@) ==> t == (
                seq![name@] + trace_children(children@, bold, italic).0,
                trace_children(children@, bold, italic).1,
            )
            &&& (namespace@ == html_namespace() && name@ == "b"@) ==> t == (
                (if bold { seq![name@] } else { seq![name@, name@] }) + trace_children(children@, true, italic).0,
                trace_children(children@, true, italic).1,
            )
            &&& (namespace@ == html_namespace() && name@ == "i"@) ==> t == (
                (if italic { seq![name@] } else { seq![name@, name@] }) + trace_children(children@, bold, true).0,
                trace_children(children@, bold, true).1,
            )
        }),
{
    reveal_strlit("div");
    reveal_strlit("h1");
    reveal_strlit("h2");
    reveal_strlit("h3");
    reveal_strlit("p");
    reveal_strlit("b");
    reveal_strlit("i");
    assert("div"@.len() == 3);
    assert("h1"@.len() == 2 && "h2"@.len() == 2 && "h3"@.len() == 2);
    assert("b"@.len() == 1);
    assert("i"@.len() == 1);
    assert("p"@.len() == 1);
    assert("b"@[0] != "p"@[0]);
    assert("i"@[0] != "p"@[0]);
    assert("b"@[0] != "i"@[0]);
    assert("b"@ != "i"@ && "b"@ != "p"@ && "i"@ != "p"@);
    let t = trace_node(DomNode::Element { namespace, name, children }, bold, italic);
    if namespace@ == html_namespace() {
        if name@ == "b"@ || name@ == "i"@ {
            assert(block_class_of(name@) is None);
        }
        let pre = crate::html::element_announcements(name@, bold, italic);
        assert(t.0[0] == pre[0]);
    }
}

/// Every run of a block is laid out at the block's heading size: one run
/// per span, in order, each with the span's text and the size that
/// `heading_scale_percent` gives for the block's class.
pub proof fn lemma_block_runs_sizes(b: BlockView)
    ensures
        block_runs_view(b).len() == b.content.len(),
        forall|k: int|
            0 <= k < b.content.len() ==> (#[trigger] block_runs_view(b)[k]).1 == heading_percent(b.class)
                && block_runs_view(b)[k].0 == b.content[k].content,
{
}

/// Headings shrink level by level: `h1` is largest, each level is smaller
/// than the one above it, `h4` is the body size, and paragraphs and
/// preformatted blocks are at the body size.
pub proof fn lemma_heading_sizes()
    ensures
        heading_percent(BlockClass::H1) > heading_percent(BlockClass::H2),
        heading_percent(BlockClass::H2) > heading_percent(BlockClass::H3),
        heading_percent(BlockClass::H3) > heading_percent(BlockClass::H4),
        heading_percent(BlockClass::H4) > heading_percent(BlockClass::H5),
        heading_percent(BlockClass::H5) > heading_percent(BlockClass::H6),
        heading_percent(BlockClass::H4) == 100,
        heading_percent(BlockClass::Paragraph) == 100,
        heading_percent(BlockClass::Pre) == 100,
{
}

/// Siblings are walked in document order: walking two runs of siblings one
/// after the other yields the blocks and the spans of the first run, then
/// those of the second.
pub proof fn lemma_walk_children_append(s1: Seq<DomNode>, s2: Seq<DomNode>, bold: bool, italic: bool)
    ensures
        walk_children(s1 + s2, bold, italic).0 == walk_children(s1, bold, italic).0 + walk_children(
            s2,
            bold,
            italic,
        ).0,
        walk_children(s1 + s2, bold, italic).1 == walk_children(s1, bold, italic).1 + walk_children(
            s2,
            bold,
            italic,
        ).1,
    decreases s2.len(),
{
    if s2.len() == 0 {
        assert(s1 + s2 =~= s1);
        assert(walk_children(s2, bold, italic).0 =~= Seq::<BlockView>::empty());
        assert(walk_children(s1, bold, italic).0 + Seq::<BlockView>::empty() =~= walk_children(s1, bold, italic).0);
        assert(walk_children(s1, bold, italic).1 + Seq::<SpanView>::empty() =~= walk_children(s1, bold, italic).1);
    } else {
        lemma_walk_children_append(s1, s2.drop_last(), bold, italic);
        assert((s1 + s2).drop_last() =~= s1 + s2.drop_last());
        assert((s1 + s2).last() == s2.last());
        let a = walk_children(s1, bold, italic);
        let b = walk_children(s2.drop_last(), bold, italic);
        let c = walk_node(s2.last(), bold, italic);
        assert((a.0 + b.0) + c.0 =~= a.0 + (b.0 + c.0));
        assert((a.1 + b.1) + c.1 =~= a.1 + (b.1 + c.1));
    }
}

/// A text node yields no block; it yields one span, holding its text,
/// exactly when it is not blank. The span is bold in a bold state, italic
/// in an italic state that is not bold, and regular otherwise.
pub proof fn lemma_text_node(contents: String, bold: bool, italic: bool)
    ensures
        ({
            let r = walk_node(DomNode::Text { contents }, bold, italic);
            &&& r.0.len() == 0
            &&& r.1.len() == if is_blank(contents@) { 0int } else { 1int }
            &&& !is_blank(contents@) ==> {
                &&& r.1[0].content == contents@
                &&& (r.1[0].class == SpanClass::Bold <==> bold)
                &&& (r.1[0].class == SpanClass::Italic <==> !bold && italic)
                &&& (r.1[0].class == SpanClass::Regular <==> !bold && !italic)
            }
        }),
{
}

/// Nodes that are neither text nor elements (the document root, doctypes,
/// comments) pass on what their children yield, in the same state.
pub proof fn lemma_other_nodes_pass_through(children: Vec<DomNode>, bold: bool, italic: bool)
    ensures
        walk_node(DomNode::Other { children }, bold, italic) == walk_children(children@, bold, italic),
{
}

/// `new_block` yields the blocks of the children and then one new block of
/// the given class that holds every loose span of the children, in order.
pub proof fn lemma_new_block_shape(children: Seq<DomNode>, bold: bool, italic: bool, class: BlockClass)
    ensures
        new_block_view(children, bold, italic, class).len() == walk_children(children, bold, italic).0.len() + 1,
        new_block_view(children, bold, italic, class).drop_last() == walk_children(children, bold, italic).0,
        new_block_view(children, bold, italic, class).last() == (BlockView {
            class,
            content: walk_children(children, bold, italic).1,
        }),
{
    assert(new_block_view(children, bold, italic, class).drop_last() =~= walk_children(children, bold, italic).0);
}

/// The walk is undefined exactly at what the original rejects: an element
/// outside the HTML namespace, and visible text met both bold and italic.
pub proof fn lemma_unsupported_nodes(namespace: String, name: String, children: Vec<DomNode>, contents: String, bold: bool, italic: bool)
    ensures
        namespace@ != html_namespace() ==> !node_supported(DomNode::Element { namespace, name, children }, bold, italic),
        node_supported(DomNode::Text { contents }, bold, italic) <==> !(bold && italic) || is_blank(contents@),
{
}

} // verus!
