use rowser::dom::DomNode;
use rowser::html::{element_trace, parse_html_traced, WalkState};

const HTML: &str = "http://www.w3.org/1999/xhtml";

fn text(s: &str) -> DomNode {
    DomNode::Text { contents: s.to_string() }
}

fn elem(name: &str, children: Vec<DomNode>) -> DomNode {
    DomNode::Element { namespace: HTML.to_string(), name: name.to_string(), children }
}

#[test]
fn trace_announces_each_element_and_bold_twice() {
    let tree = DomNode::Other {
        children: vec![elem("p", vec![text("a"), elem("b", vec![elem("b", vec![text("x")])])]), elem("i", vec![])],
    };
    let (names, complete) = element_trace(&tree, &WalkState::default());
    assert!(complete);
    assert_eq!(names, vec!["p", "b", "b", "b", "i", "i"]);
}

#[test]
fn trace_stops_at_foreign_element() {
    let svg = DomNode::Element {
        namespace: "http://www.w3.org/2000/svg".to_string(),
        name: "svg".to_string(),
        children: vec![],
    };
    let tree = DomNode::Other { children: vec![elem("div", vec![]), svg, elem("p", vec![])] };
    let (names, complete) = element_trace(&tree, &WalkState::default());
    assert!(!complete);
    assert_eq!(names, vec!["div"]);
}

#[test]
fn trace_stops_at_bold_italic_text() {
    let tree = elem("b", vec![elem("i", vec![text(" "), text("x")]), elem("p", vec![])]);
    let (names, complete) = element_trace(&tree, &WalkState::default());
    assert!(!complete);
    assert_eq!(names, vec!["b", "b", "i", "i"]);
}

#[test]
fn traced_parse_of_page() {
    let (names, blocks) = parse_html_traced("<p>Hi <b>there</b></p>".to_string());
    assert_eq!(names, vec!["html", "head", "body", "p", "b", "b"]);
    let blocks = blocks.expect("supported");
    assert_eq!(blocks.len(), 1);
}

#[test]
fn traced_parse_of_unsupported_page() {
    let (names, blocks) = parse_html_traced("<p><b><i>x</i></b></p>".to_string());
    assert!(blocks.is_none());
    assert_eq!(names, vec!["html", "head", "body", "p", "b", "b", "i", "i"]);
}
