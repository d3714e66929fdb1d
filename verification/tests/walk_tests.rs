use rowser::dom::{text_is_blank, DomNode};
use rowser::html::{
    is_supported, new_block, parse_html, try_parse_html, walk, Block, BlockClass, Span, SpanClass,
    WalkState,
};

const HTML: &str = "http://www.w3.org/1999/xhtml";

fn text(s: &str) -> DomNode {
    DomNode::Text { contents: s.to_string() }
}

fn elem(name: &str, children: Vec<DomNode>) -> DomNode {
    DomNode::Element { namespace: HTML.to_string(), name: name.to_string(), children }
}

fn span(s: &Span) -> (SpanClass, &str) {
    match s {
        Span::Text { class, content } => (*class, content.as_str()),
    }
}

fn spans(b: &Block) -> Vec<(SpanClass, &str)> {
    b.content.iter().map(span).collect()
}

#[test]
fn blank_text_detection() {
    assert!(text_is_blank(""));
    assert!(text_is_blank(" \t\n\r"));
    assert!(text_is_blank("\u{a0}\u{3000}\u{2028}\u{85}"));
    assert!(!text_is_blank(" x "));
    assert!(!text_is_blank("\u{200b}"));
}

#[test]
fn plain_text_is_a_regular_span() {
    let (blocks, spans) = walk(&text("hello "), &WalkState::default());
    assert!(blocks.is_empty());
    assert_eq!(spans.len(), 1);
    assert_eq!(span(&spans[0]), (SpanClass::Regular, "hello "));
}

#[test]
fn blank_text_yields_nothing() {
    let (blocks, spans) = walk(&text("  \n "), &WalkState::default());
    assert!(blocks.is_empty());
    assert!(spans.is_empty());
}

#[test]
fn bold_and_italic_styles() {
    let tree = elem("span", vec![elem("b", vec![text("B")]), elem("i", vec![text("I")]), text("R")]);
    let (blocks, spans) = walk(&tree, &WalkState::default());
    assert!(blocks.is_empty());
    let got: Vec<_> = spans.iter().map(span).collect();
    assert_eq!(got, vec![(SpanClass::Bold, "B"), (SpanClass::Italic, "I"), (SpanClass::Regular, "R")]);
}

#[test]
fn nested_bold_stays_bold() {
    let tree = elem("b", vec![elem("b", vec![text("x")])]);
    let (_, spans) = walk(&tree, &WalkState::default());
    assert_eq!(span(&spans[0]), (SpanClass::Bold, "x"));
}

#[test]
fn paragraph_takes_its_spans() {
    let tree = elem("p", vec![text("a"), elem("b", vec![text("b")])]);
    let (blocks, spans) = walk(&tree, &WalkState::default());
    assert!(spans.is_empty());
    assert_eq!(blocks.len(), 1);
    assert_eq!(blocks[0].class, BlockClass::Paragraph);
    assert_eq!(spans_of(&blocks[0]), vec![(SpanClass::Regular, "a"), (SpanClass::Bold, "b")]);
}

fn spans_of(b: &Block) -> Vec<(SpanClass, &str)> {
    spans(b)
}

#[test]
fn nested_block_comes_first() {
    let tree = elem("div", vec![text("outer"), elem("p", vec![text("inner")])]);
    let (blocks, _) = walk(&tree, &WalkState::default());
    assert_eq!(blocks.len(), 2);
    assert_eq!(spans(&blocks[0]), vec![(SpanClass::Regular, "inner")]);
    assert_eq!(spans(&blocks[1]), vec![(SpanClass::Regular, "outer")]);
    assert_eq!(blocks[1].class, BlockClass::Paragraph);
}

#[test]
fn headings_one_to_three_are_blocks() {
    let tree = DomNode::Other {
        children: vec![
            elem("h1", vec![text("one")]),
            elem("h2", vec![text("two")]),
            elem("h3", vec![text("three")]),
            elem("h4", vec![text("four")]),
        ],
    };
    let (blocks, spans) = walk(&tree, &WalkState::default());
    let classes: Vec<BlockClass> = blocks.iter().map(|b| b.class).collect();
    assert_eq!(classes, vec![BlockClass::H1, BlockClass::H2, BlockClass::H3]);
    assert_eq!(spans.len(), 1);
    assert_eq!(span(&spans[0]), (SpanClass::Regular, "four"));
}

#[test]
fn new_block_appends_block_of_class() {
    let node = elem("section", vec![text("x"), elem("div", vec![text("y")])]);
    let blocks = new_block(&node, &WalkState::default(), BlockClass::H2);
    assert_eq!(blocks.len(), 2);
    assert_eq!(blocks[0].class, BlockClass::Paragraph);
    assert_eq!(spans(&blocks[0]), vec![(SpanClass::Regular, "y")]);
    assert_eq!(blocks[1].class, BlockClass::H2);
    assert_eq!(spans(&blocks[1]), vec![(SpanClass::Regular, "x")]);
}

#[test]
fn new_block_of_text_node_is_empty_block() {
    let blocks = new_block(&text("t"), &WalkState::default(), BlockClass::Pre);
    assert_eq!(blocks.len(), 1);
    assert_eq!(blocks[0].class, BlockClass::Pre);
    assert!(blocks[0].content.is_empty());
}

#[test]
fn support_checks() {
    let plain = WalkState::default();
    assert!(is_supported(&elem("b", vec![elem("i", vec![text("  ")])]), &plain));
    assert!(!is_supported(&elem("b", vec![elem("i", vec![text("x")])]), &plain));
    assert!(!is_supported(&elem("i", vec![elem("b", vec![text("x")])]), &plain));
    let svg = DomNode::Element {
        namespace: "http://www.w3.org/2000/svg".to_string(),
        name: "svg".to_string(),
        children: vec![],
    };
    assert!(!is_supported(&DomNode::Other { children: vec![svg] }, &plain));
    assert!(is_supported(&elem("p", vec![elem("b", vec![text("x")])]), &plain));
}

#[test]
fn parse_simple_page() {
    let blocks = parse_html("<html><body><p>Hello <b>world</b></p><p>Second</p></body></html>".to_string());
    assert_eq!(blocks.len(), 2);
    assert_eq!(spans(&blocks[0]), vec![(SpanClass::Regular, "Hello "), (SpanClass::Bold, "world")]);
    assert_eq!(spans(&blocks[1]), vec![(SpanClass::Regular, "Second")]);
}

#[test]
fn parse_drops_text_outside_blocks() {
    let blocks = parse_html("loose text<h1>Title</h1><h5>small</h5>".to_string());
    assert_eq!(blocks.len(), 1);
    assert_eq!(blocks[0].class, BlockClass::H1);
    assert_eq!(spans(&blocks[0]), vec![(SpanClass::Regular, "Title")]);
}

#[test]
fn parse_implied_structure() {
    let blocks = parse_html("<div><i>it</i><p>in</p>  </div>".to_string());
    assert_eq!(blocks.len(), 2);
    assert_eq!(spans(&blocks[0]), vec![(SpanClass::Regular, "in")]);
    assert_eq!(spans(&blocks[1]), vec![(SpanClass::Italic, "it")]);
}

#[test]
fn try_parse_refuses_unsupported_documents() {
    assert!(try_parse_html("<p><b><i>both</i></b></p>".to_string()).is_none());
    assert!(try_parse_html("<p>x</p><svg><text>pic</text></svg>".to_string()).is_none());
    let ok = try_parse_html("<p><b><i> </i></b>fine</p>".to_string()).expect("supported");
    assert_eq!(ok.len(), 1);
    assert_eq!(spans(&ok[0]), vec![(SpanClass::Regular, "fine")]);
}

#[test]
fn try_parse_agrees_with_parse() {
    let page = "<h2>A</h2><p>b <i>c</i></p>";
    let a = parse_html(page.to_string());
    let b = try_parse_html(page.to_string()).expect("supported");
    assert_eq!(a.len(), b.len());
    for (x, y) in a.iter().zip(b.iter()) {
        assert_eq!(x.class, y.class);
        assert_eq!(spans(x), spans(y));
    }
}
