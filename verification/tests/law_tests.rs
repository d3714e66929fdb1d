use rowser::dom::DomNode;
use rowser::html::{walk, Block, BlockClass, Span, WalkState};
use rowser::render::{block_runs, document_runs, heading_scale_percent};

const HTML: &str = "http://www.w3.org/1999/xhtml";

fn text(s: &str) -> DomNode {
    DomNode::Text { contents: s.to_string() }
}

fn elem(name: &str, children: Vec<DomNode>) -> DomNode {
    DomNode::Element { namespace: HTML.to_string(), name: name.to_string(), children }
}

fn content(s: &Span) -> String {
    match s {
        Span::Text { content, .. } => content.clone(),
    }
}

fn sample() -> DomNode {
    DomNode::Other {
        children: vec![elem(
            "body",
            vec![
                text("\n  "),
                elem("div", vec![text("a"), elem("h1", vec![text("b")]), elem("b", vec![text("c")])]),
                text("d"),
                elem("p", vec![text(" "), elem("i", vec![text("e")])]),
                elem("h3", vec![]),
            ],
        )],
    }
}

#[test]
fn walk_keeps_visible_text() {
    let (blocks, spans) = walk(&sample(), &WalkState::default());
    let mut got: Vec<String> = blocks.iter().flat_map(|b| b.content.iter().map(content)).collect();
    got.extend(spans.iter().map(content));
    got.sort();
    assert_eq!(got, vec!["a", "b", "c", "d", "e"]);
}

#[test]
fn walk_block_count() {
    let (blocks, _) = walk(&sample(), &WalkState::default());
    assert_eq!(blocks.len(), 4);
    let classes: Vec<BlockClass> = blocks.iter().map(|b| b.class).collect();
    assert_eq!(classes, vec![BlockClass::H1, BlockClass::Paragraph, BlockClass::Paragraph, BlockClass::H3]);
}

#[test]
fn walk_yields_no_blank_text() {
    let (blocks, spans) = walk(&sample(), &WalkState::default());
    for b in &blocks {
        for s in &b.content {
            assert!(!content(s).trim().is_empty());
        }
    }
    for s in &spans {
        assert!(!content(s).trim().is_empty());
    }
}

#[test]
fn heading_scales() {
    assert_eq!(heading_scale_percent(BlockClass::H1), 200);
    assert_eq!(heading_scale_percent(BlockClass::H2), 150);
    assert_eq!(heading_scale_percent(BlockClass::H3), 117);
    assert_eq!(heading_scale_percent(BlockClass::H4), 100);
    assert_eq!(heading_scale_percent(BlockClass::H5), 83);
    assert_eq!(heading_scale_percent(BlockClass::H6), 67);
    assert_eq!(heading_scale_percent(BlockClass::Paragraph), 100);
    assert_eq!(heading_scale_percent(BlockClass::Pre), 100);
}

#[test]
fn runs_of_one_block() {
    let block = Block {
        class: BlockClass::H2,
        content: vec![
            Span::Text { class: rowser::html::SpanClass::Regular, content: "x".to_string() },
            Span::Text { class: rowser::html::SpanClass::Bold, content: "y".to_string() },
        ],
    };
    let runs = block_runs(&block);
    let got: Vec<(&str, u32)> = runs.iter().map(|r| (r.text, r.scale_percent)).collect();
    assert_eq!(got, vec![("x", 150), ("y", 150)]);
}

#[test]
fn runs_keep_block_text() {
    let (blocks, _) = walk(&sample(), &WalkState::default());
    let runs = document_runs(&blocks);
    let got: Vec<(&str, u32)> = runs.iter().map(|r| (r.text, r.scale_percent)).collect();
    assert_eq!(got, vec![("b", 200), ("a", 100), ("c", 100), ("e", 100)]);
}
