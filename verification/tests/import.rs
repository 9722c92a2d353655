use flowchart_mcp::engine::export::to_mermaid;
use flowchart_mcp::engine::import::{from_mermaid, parse_mermaid, parse_shape_body, ImportResult};
use flowchart_mcp::engine::Flowchart;
use flowchart_mcp::engine::{ContainerKind, Direction, LineStyle, Shape};
use flowchart_mcp::error::FlowError;

#[test]
fn parses_direction_and_nodes() {
    let fc = from_mermaid("flowchart LR\n  A[Start] --> B{Go?}\n  B -->|yes| C(Done)").unwrap();
    assert_eq!(fc.direction, Direction::LR);
    assert_eq!(fc.nodes.len(), 3);
    assert_eq!(fc.edges.len(), 2);
    let b = fc.nodes.iter().find(|n| n.id == "B").unwrap();
    assert_eq!(b.shape, Shape::Diamond);
    let e = &fc.edges[1];
    assert_eq!(e.label.as_deref(), Some("yes"));
}

#[test]
fn parses_dotted_and_thick() {
    let fc = from_mermaid("graph TD\n A-.->B\n B==>C").unwrap();
    assert_eq!(fc.edges[0].line, LineStyle::Dotted);
    assert_eq!(fc.edges[1].line, LineStyle::Thick);
}

#[test]
fn parses_inline_labels() {
    let fc = from_mermaid("flowchart TD\n A -- next --> B\n B -. maybe .-> C").unwrap();
    assert_eq!(fc.edges[0].label.as_deref(), Some("next"));
    assert_eq!(fc.edges[1].label.as_deref(), Some("maybe"));
    assert_eq!(fc.edges[1].line, LineStyle::Dotted);
}

#[test]
fn parses_subgraph() {
    let src = "flowchart TB\n subgraph one [Group One]\n  A --> B\n end\n B --> C";
    let fc = from_mermaid(src).unwrap();
    assert_eq!(fc.subgraphs.len(), 1);
    assert_eq!(fc.subgraphs[0].label, "Group One");
    assert!(fc.subgraphs[0].members.contains(&"A".to_string()));
}

#[test]
fn rejects_garbage() {
    assert!(from_mermaid("not a diagram").is_err());
}

fn parse_err(src: &str) -> String {
    match from_mermaid(src) {
        Err(FlowError::Parse(m)) => m,
        Err(e) => panic!("unexpected error {e:?}"),
        Ok(_) => panic!("expected an error"),
    }
}

#[test]
fn import_errors() {
    assert_eq!(parse_err(""), "empty input");
    assert_eq!(parse_err("  %% only a comment\n\n"), "empty input");
    assert_eq!(parse_err("graph sideways\nA"), "unknown direction 'sideways'");
    assert_eq!(parse_err("flowchart\n"), "no nodes found");
    assert_eq!(parse_err("flowchart\n [x]"), "node token missing id: '[x]'");
    assert_eq!(parse_err("flowchart\n A(x]"), "unrecognized node shape: '(x]'");
}

#[test]
fn import_shapes_labels_and_directives() {
    let src = "%% leading comment\r\nflowchart TB\r\n  a((Circle)) --- b[(\"DB\")] %% trailing\r\n  style a fill:#fff\r\n  classDef x fill:#000\r\n  direction RL\r\n  b --> c{{Hex}}\r\n  c\r\n  a == heavy ==> c\r\n";
    let fc = from_mermaid(src).unwrap();
    assert_eq!(fc.direction, Direction::RL);
    assert_eq!(fc.nodes.len(), 3);
    assert_eq!(fc.nodes[0].shape, Shape::Circle);
    assert_eq!(fc.nodes[0].label, "Circle");
    assert_eq!(fc.nodes[1].shape, Shape::Cylinder);
    assert_eq!(fc.nodes[1].label, "DB");
    assert_eq!(fc.nodes[2].shape, Shape::Hexagon);
    assert_eq!(fc.edges.len(), 3);
    assert_eq!(fc.edges[0].line, LineStyle::Solid);
    assert!(!fc.edges[0].arrow);
    assert_eq!(fc.edges[2].line, LineStyle::Thick);
    assert_eq!(fc.edges[2].label.as_deref(), Some("heavy"));
    assert!(fc.edges[2].arrow);
}

#[test]
fn nested_and_unnamed_subgraphs() {
    let src = "graph LR\nsubgraph outer\n x\n subgraph \"Inner\"\n  y --> z\n end\nend\n";
    let fc = from_mermaid(src).unwrap();
    assert_eq!(fc.subgraphs.len(), 2);
    assert_eq!(fc.subgraphs[0].id, "Inner");
    assert_eq!(fc.subgraphs[0].members, vec!["y".to_string(), "z".to_string()]);
    assert_eq!(fc.subgraphs[0].kind, ContainerKind::Group);
    assert_eq!(fc.subgraphs[1].id, "outer");
    assert_eq!(fc.subgraphs[1].label, "outer");
    assert_eq!(fc.subgraphs[1].members, vec!["x".to_string()]);
}

#[test]
fn non_ascii_before_connector_is_unreadable() {
    assert!(matches!(parse_mermaid("flowchart\n é --> b"), ImportResult::Unreadable));
    assert!(matches!(parse_mermaid("flowchart\n é"), ImportResult::Unreadable));
    let fc = match parse_mermaid("flowchart\n a --> é") {
        ImportResult::Chart(fc) => fc,
        _ => panic!("expected a chart"),
    };
    assert_eq!(fc.nodes[1].id, "é");
}

#[test]
fn imported_edges_join_imported_nodes() {
    let fc = from_mermaid("flowchart LR\n  a --> b[B]\n  subgraph g [G]\n    b -.-> c{C}\n  end\n  c ==>|ok| a").unwrap();
    assert_eq!(fc.edges.len(), 3);
    for e in &fc.edges {
        assert!(fc.nodes.iter().any(|n| n.id == e.from));
        assert!(fc.nodes.iter().any(|n| n.id == e.to));
    }
}

#[test]
fn exported_node_bodies_read_back() {
    let shapes = [
        Shape::Rectangle,
        Shape::RoundRect,
        Shape::Stadium,
        Shape::Subroutine,
        Shape::Cylinder,
        Shape::Circle,
        Shape::DoubleCircle,
        Shape::Diamond,
        Shape::Hexagon,
        Shape::Parallelogram,
        Shape::ParallelogramAlt,
        Shape::Trapezoid,
        Shape::TrapezoidAlt,
    ];
    for sh in shapes {
        let src = format!("flowchart TD\n  n{}\n", sh.mermaid_wrap("In put 2"));
        let fc = from_mermaid(&src).unwrap();
        assert_eq!(fc.nodes.len(), 1);
        assert_eq!(fc.nodes[0].shape, sh);
        assert_eq!(fc.nodes[0].label, "In put 2");
    }
}

#[test]
fn mermaid_export_reads_back() {
    let mut fc = Flowchart::new(Direction::LR);
    fc.add_node("start", "Start", Shape::Stadium).unwrap();
    fc.add_node("check", "Is it ok", Shape::Diamond).unwrap();
    fc.add_node("note1", "Remember this", Shape::Note).unwrap();
    fc.add_node("done", "Done 2", Shape::DoubleCircle).unwrap();
    fc.add_edge("start", "check", None, LineStyle::Solid, true).unwrap();
    fc.add_edge("check", "done", Some("yes".into()), LineStyle::Solid, true).unwrap();
    fc.add_edge("check", "note1", Some("no way".into()), LineStyle::Dotted, true).unwrap();
    fc.add_edge("note1", "done", None, LineStyle::Dotted, true).unwrap();
    fc.add_edge("done", "start", Some("again".into()), LineStyle::Thick, true).unwrap();
    let g = from_mermaid(&to_mermaid(&fc)).unwrap();
    assert_eq!(g.direction, Direction::LR);
    assert_eq!(g.nodes.len(), 4);
    for (a, b) in g.nodes.iter().zip(fc.nodes.iter()) {
        assert_eq!(a.id, b.id);
        assert_eq!(a.label, b.label);
    }
    assert_eq!(g.nodes[2].shape, Shape::Rectangle);
    assert_eq!(g.nodes[3].shape, Shape::DoubleCircle);
    assert_eq!(g.edges.len(), 5);
    for (a, b) in g.edges.iter().zip(fc.edges.iter()) {
        assert_eq!(a.from, b.from);
        assert_eq!(a.to, b.to);
        assert_eq!(a.label, b.label);
        assert_eq!(a.line, b.line);
        assert!(a.arrow);
    }
}

#[test]
fn parse_shape_body_reads_wrapped_labels() {
    let body: Vec<char> = Shape::Trapezoid.mermaid_wrap("Load 3").chars().collect();
    let (sh, l) = parse_shape_body(&body).unwrap();
    assert_eq!(sh, Shape::Trapezoid);
    assert_eq!(l.iter().collect::<String>(), "Load 3");
    let card: Vec<char> = Shape::Card.mermaid_wrap("x").chars().collect();
    assert_eq!(parse_shape_body(&card).unwrap().0, Shape::Rectangle);
    let bad: Vec<char> = "<x>".chars().collect();
    assert!(parse_shape_body(&bad).is_none());
}
