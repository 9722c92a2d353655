use flowchart_mcp::sequence::export::{to_drawio, to_mermaid, to_svg};
use flowchart_mcp::sequence::{MessageKind, Sequence};

fn sample() -> Sequence {
    let mut s = Sequence::new();
    s.title = Some("Login".into());
    s.add_participant("u", "User", true).unwrap();
    s.add_participant("api", "API", false).unwrap();
    s.add_message("u", "api", "POST /login", MessageKind::Sync).unwrap();
    s.add_message("api", "u", "200 OK", MessageKind::Return).unwrap();
    s.add_message("api", "api", "log", MessageKind::Async).unwrap();
    s
}

#[test]
fn mermaid_has_sequence_header() {
    let m = to_mermaid(&sample());
    assert!(m.starts_with("sequenceDiagram"));
    assert!(m.contains("actor u as User"));
    assert!(m.contains("u->>api: POST /login"));
    assert!(m.contains("api-->>u: 200 OK"));
}

#[test]
fn drawio_has_lifelines_and_messages() {
    let x = to_drawio(&sample());
    assert!(x.contains("<mxfile"));
    assert!(x.contains("umlActor"));
    assert!(x.contains("umlLifeline"));
    assert!(x.contains("endArrow=block"));
    assert!(x.contains("dashed=1"));
    assert!(x.contains("value=\"POST /login\""));
}

#[test]
fn export_svg_well_formed() {
    let s = to_svg(&sample());
    assert!(s.starts_with("<svg"));
    assert!(s.contains("seqarrow"));
    assert!(s.contains("User"));
}

#[test]
fn build_and_autocreate() {
    let mut s = Sequence::new();
    s.add_participant("u", "User", true).unwrap();
    let i = s.add_message("u", "api", "GET /x", MessageKind::Sync).unwrap();
    assert_eq!(i, 0);
    assert!(s.has_participant("api"));
    assert_eq!(s.participants.len(), 2);
    s.add_message("api", "u", "200 OK", MessageKind::Return).unwrap();
    assert_eq!(s.messages.len(), 2);
}

#[test]
fn rejects_duplicate_and_empty() {
    let mut s = Sequence::new();
    s.add_participant("a", "A", false).unwrap();
    assert!(s.add_participant("a", "A2", false).is_err());
    assert!(s.add_participant("", "x", false).is_err());
}

#[test]
fn remove_message_bounds() {
    let mut s = Sequence::new();
    s.add_message("a", "b", "m", MessageKind::Sync).unwrap();
    assert!(s.remove_message(5).is_err());
    assert!(s.remove_message(0).is_ok());
    assert!(s.messages.is_empty());
}

#[test]
fn sequence_mermaid_exact_text() {
    let mut s = Sequence::new();
    s.add_participant("1x", "1x", false).unwrap();
    s.add_message("1x", "b-c", "bye", MessageKind::Destroy).unwrap();
    assert_eq!(
        to_mermaid(&s),
        "sequenceDiagram\n    participant p_1x\n    participant b_c\n    p_1x-xb_c: bye\n    destroy b_c\n"
    );
}

#[test]
fn sequence_svg_exact_geometry() {
    let mut s = Sequence::new();
    s.add_participant("a", "A&B", false).unwrap();
    s.add_participant("b", "B", false).unwrap();
    s.add_message("a", "b", "go", MessageKind::Return).unwrap();
    let svg = to_svg(&s);
    assert!(svg.starts_with(
        "<svg xmlns=\"http://www.w3.org/2000/svg\" width=\"328\" height=\"220\" viewBox=\"0 0 328 220\">\n"
    ));
    assert!(svg.contains(
        "  <line x1=\"84.0\" y1=\"64.0\" x2=\"84.0\" y2=\"196.0\" stroke=\"#9DB3C8\" stroke-dasharray=\"4 4\"/>\n"
    ));
    assert!(svg.contains(">A&amp;B</text>"));
    assert!(svg.contains(
        "  <line x1=\"84.0\" y1=\"132.0\" x2=\"244.0\" y2=\"132.0\" stroke=\"#33415C\" stroke-dasharray=\"5 4\" marker-end=\"url(#seqarrow)\"/>\n"
    ));
    assert!(svg.contains("  <text x=\"164.0\" y=\"127.0\" font-family=\"Helvetica\" font-size=\"11\" fill=\"#33415C\" text-anchor=\"middle\">go</text>\n"));
    assert!(svg.ends_with("</svg>\n"));
}

#[test]
fn sequence_drawio_exact_geometry() {
    let mut s = Sequence::new();
    s.add_participant("a", "A", false).unwrap();
    s.add_message("a", "a", "self", MessageKind::Async).unwrap();
    let x = to_drawio(&s);
    assert!(x.contains("<diagram id=\"sequence\" name=\"Sequence\">"));
    assert!(x.contains("<mxGraphModel dx=\"400\" dy=\"400\""));
    assert!(x.contains("<mxGeometry x=\"24\" y=\"24\" width=\"120\" height=\"196\" as=\"geometry\"/>"));
    assert!(x.contains("<mxPoint x=\"84\" y=\"132\" as=\"sourcePoint\"/>"));
    assert!(x.contains("<mxPoint x=\"134\" y=\"154\" as=\"targetPoint\"/>"));
    assert!(x.contains("endArrow=open;endFill=0;strokeColor"));
}

#[test]
fn message_kind_parse_and_labels() {
    assert_eq!(MessageKind::parse("Reply"), Some(MessageKind::Return));
    // Dashes read as underscores before matching, so arrow tokens do not parse.
    assert_eq!(MessageKind::parse("-->>"), None);
    assert_eq!(MessageKind::parse("bogus"), None);
    assert_eq!(MessageKind::Destroy.mermaid(), "-x");
    assert!(MessageKind::Create.dashed());
    assert!(!MessageKind::Sync.dashed());
    assert_eq!(MessageKind::Async.label(), "async");
}
