use flowchart_mcp::engine::{Arrow, ContainerKind, Direction, Shape};
use flowchart_mcp::templates::{build, catalog};

#[test]
fn all_templates_build() {
    for t in [
        "basic", "decision", "approval", "etl", "swimlane", "org_chart", "mind_map",
        "uml_class", "erd", "bpmn",
    ] {
        let mut doc = build(t).unwrap_or_else(|| panic!("template {t} missing"));
        assert!(!doc.chart().nodes.is_empty(), "{t} has no nodes");
    }
    assert!(build("nope").is_none());
}

#[test]
fn erd_uses_crowsfoot() {
    let mut doc = build("erd").unwrap();
    assert!(doc.chart().edges.iter().any(|e| e.end_arrow == Some(Arrow::ErMany)));
}

#[test]
fn template_contents() {
    let mut doc = build("swimlane").unwrap();
    assert_eq!(doc.pages.len(), 1);
    assert_eq!(doc.pages[0].name, "Page-1");
    let fc = doc.chart();
    assert_eq!(fc.direction, Direction::TB);
    assert_eq!(fc.subgraphs.len(), 3);
    assert_eq!(fc.subgraphs[0].kind, ContainerKind::Pool);
    assert_eq!(fc.subgraphs[1].parent.as_deref(), Some("pool"));
    assert_eq!(fc.subgraphs[2].members, vec!["b1".to_string(), "b2".to_string()]);
    let mut doc = build("mind_map").unwrap();
    let fc = doc.chart();
    assert_eq!(fc.nodes[0].shape, Shape::Circle);
    assert_eq!(fc.nodes[0].style.fill.as_deref(), Some("#FFE6CC"));
    assert_eq!(fc.edges.len(), 3);
    assert_eq!(fc.edges[2].end_arrow, Some(Arrow::NoArrow));
    assert!(!fc.edges[2].arrow);
    let c = catalog();
    assert_eq!(c.len(), 11);
    assert_eq!(c[0].0, "basic");
    assert_eq!(c[9].0, "bpmn");
    assert_eq!(c[10].0, "state_machine");
}

#[test]
fn state_machine_template_has_states_and_a_self_loop() {
    let mut doc = build("state_machine").unwrap();
    assert_eq!(doc.pages.len(), 1);
    let fc = doc.chart();
    assert_eq!(fc.direction, Direction::LR);
    assert_eq!(fc.nodes.len(), 5);
    assert_eq!(fc.nodes[0].shape, Shape::Circle);
    assert_eq!(fc.nodes[4].shape, Shape::DoubleCircle);
    assert_eq!(fc.edges.len(), 6);
    assert!(fc.edges.iter().any(|e| e.from == e.to && e.label.as_deref() == Some("tick")));
}
