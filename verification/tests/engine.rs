use flowchart_mcp::engine::drawio::{
    drawio_container_style, drawio_edge_style, drawio_lane_style, drawio_node_style,
    drawio_node_value, drawio_style,
};
use flowchart_mcp::engine::export::{
    dot_escape, format_ext, mermaid_style, plain_label, strip_html, to_dot, to_mermaid,
};
use flowchart_mcp::engine::steps::number_steps;
use flowchart_mcp::engine::validate::{check_chart, check_document, reach_from, LayoutFacts, Violation};
use flowchart_mcp::engine::Document;
use flowchart_mcp::engine::{
    Arrow, ContainerKind, Decimal, Direction, Edge, Flowchart, LineStyle, Shape, Style,
};

fn sample() -> Flowchart {
    let mut fc = Flowchart::new(Direction::TB);
    fc.add_node("a", "Start", Shape::Stadium).unwrap();
    fc.add_node("b", "Decide", Shape::Diamond).unwrap();
    fc.add_node("c", "End", Shape::Stadium).unwrap();
    fc.add_edge("a", "b", None, LineStyle::Solid, true).unwrap();
    fc.add_edge("b", "c", Some("yes".into()), LineStyle::Dotted, true).unwrap();
    fc
}

fn no_facts() -> LayoutFacts {
    LayoutFacts { overlaps: vec![], small_decisions: vec![] }
}

fn check(fc: &Flowchart) -> Vec<Violation> {
    let mut v = Vec::new();
    check_chart(fc, 0, &no_facts(), &mut v);
    v
}

#[test]
fn mermaid_has_header_and_edges() {
    let m = to_mermaid(&sample());
    assert!(m.starts_with("flowchart TD"));
    assert!(m.contains("a([Start])"));
    assert!(m.contains("b{Decide}"));
}

#[test]
fn dot_is_digraph() {
    let d = to_dot(&sample());
    assert!(d.contains("digraph G"));
    assert!(d.contains("rankdir=TB"));
    assert!(d.contains("->"));
}

#[test]
fn mermaid_exact_text() {
    let m = to_mermaid(&sample());
    assert_eq!(
        m,
        "flowchart TD\n    a([Start])\n    b{Decide}\n    c([End])\n    a --> b\n    b -. yes .-> c\n"
    );
}

#[test]
fn mermaid_subgraph_members_and_styles() {
    let mut fc = Flowchart::new(Direction::LR);
    fc.add_node("x", "X", Shape::Rectangle).unwrap();
    fc.add_node("y", "Y", Shape::Circle).unwrap();
    fc.add_subgraph("g", "Group", vec!["y".into()], ContainerKind::Group, None, None).unwrap();
    let mut st = Style::empty();
    st.fill = Some("#FFF".into());
    st.stroke_width = Some(Decimal::new("2.5"));
    st.dashed = Some(true);
    fc.style_node("x", st).unwrap();
    fc.add_edge("x", "y", None, LineStyle::Thick, false).unwrap();
    let m = to_mermaid(&fc);
    assert_eq!(
        m,
        "flowchart LR\n    x[X]\n    subgraph g [Group]\n        y((Y))\n    end\n    x ===- y\n    style x fill:#FFF,stroke-width:2.5px,stroke-dasharray:5 5\n"
    );
}

#[test]
fn dot_exact_text() {
    let mut fc = sample();
    fc.title = Some("T \"q\"".into());
    let d = to_dot(&fc);
    assert_eq!(
        d,
        "digraph G {\n  rankdir=TB;\n  node [fontname=\"Helvetica\"];\n  edge [fontname=\"Helvetica\"];\n  label=\"T \\\"q\\\"\";\n  labelloc=t;\n  a [label=\"Start\", shape=box style=rounded];\n  b [label=\"Decide\", shape=diamond];\n  c [label=\"End\", shape=box style=rounded];\n  a -> b;\n  b -> c [label=\"yes\", style=dashed];\n}\n"
    );
}

#[test]
fn dot_clusters_numbered_and_no_arrow() {
    let mut fc = Flowchart::new(Direction::RL);
    fc.add_node("1x", "One", Shape::Rectangle).unwrap();
    fc.add_node("z", "Z", Shape::Note).unwrap();
    fc.add_subgraph("s", "S", vec!["1x".into()], ContainerKind::Container, None, None).unwrap();
    fc.add_edge("1x", "z", None, LineStyle::Thick, false).unwrap();
    fc.style_edge(0, None, None, None, Some("#F00".into())).unwrap();
    let d = to_dot(&fc);
    assert!(d.contains("rankdir=LR;"));
    assert!(d.contains("  subgraph cluster_0 {\n    label=\"S\";\n    n_1x;\n  }\n"));
    assert!(d.contains("  n_1x -> z [penwidth=2.5, dir=none, color=\"#F00\"];\n"));
    assert!(d.contains("z [label=\"Z\", shape=note];"));
}

#[test]
fn html_label_stripped_in_text() {
    let mut fc = Flowchart::new(Direction::TB);
    fc.add_node("a", "<b>Title</b><br>line two", Shape::Rectangle).unwrap();
    fc.set_node_html("a", Some(true)).unwrap();
    let m = to_mermaid(&fc);
    assert!(m.contains("Title line two"), "got: {m}");
    assert!(!m.contains("<b>"));
    assert_eq!(plain_label(&fc.nodes[0]), "Title line two");
}

#[test]
fn strip_html_cases() {
    assert_eq!(strip_html("<p>Hi</p><p>there</p>"), "Hi there");
    assert_eq!(strip_html("a<BR/>b"), "a b");
    assert_eq!(strip_html("  x   y  "), "x y");
    assert_eq!(strip_html("<div>one</DIV>two"), "one two");
    assert_eq!(strip_html("3 > 2"), "3 2");
    assert_eq!(strip_html(""), "");
}

#[test]
fn dot_escape_and_format_ext() {
    assert_eq!(dot_escape("a\\b\"c"), "a\\\\b\\\"c");
    assert_eq!(format_ext("DrawIO"), "drawio");
    assert_eq!(format_ext("xml"), "drawio");
    assert_eq!(format_ext("Mermaid"), "mmd");
    assert_eq!(format_ext("graphviz"), "dot");
    assert_eq!(format_ext("svg"), "svg");
    assert_eq!(format_ext("json"), "json");
    assert_eq!(format_ext("pdf"), "txt");
}

#[test]
fn mermaid_style_only_when_visible() {
    let mut st = Style::empty();
    assert!(mermaid_style(&st).is_none());
    st.bold = Some(true);
    assert!(mermaid_style(&st).is_none());
    st.text_color = Some("#111".into());
    assert_eq!(mermaid_style(&st).unwrap(), "color:#111");
}

#[test]
fn clean_chart_has_no_violations() {
    let mut fc = Flowchart::new(Direction::LR);
    fc.add_node("s", "Start", Shape::Stadium).unwrap();
    fc.add_node("d", "OK?", Shape::Diamond).unwrap();
    fc.add_node("a", "A", Shape::Rectangle).unwrap();
    fc.add_node("e", "End", Shape::Stadium).unwrap();
    fc.add_edge("s", "d", None, LineStyle::Solid, true).unwrap();
    fc.add_edge("d", "a", Some("yes".into()), LineStyle::Solid, true).unwrap();
    fc.add_edge("d", "e", Some("no".into()), LineStyle::Solid, true).unwrap();
    fc.add_edge("a", "e", None, LineStyle::Solid, true).unwrap();
    let v = check(&fc);
    assert!(v.is_empty(), "unexpected: {v:?}");
}

#[test]
fn flags_unlabeled_decision_and_orphan() {
    let mut fc = Flowchart::new(Direction::LR);
    fc.add_node("s", "Start", Shape::Stadium).unwrap();
    fc.add_node("d", "OK?", Shape::Diamond).unwrap();
    fc.add_node("a", "A", Shape::Rectangle).unwrap();
    fc.add_node("b", "B", Shape::Rectangle).unwrap();
    fc.add_node("orphan", "Orphan", Shape::Rectangle).unwrap();
    fc.add_node("e", "End", Shape::Stadium).unwrap();
    fc.add_edge("s", "d", None, LineStyle::Solid, true).unwrap();
    fc.add_edge("d", "a", None, LineStyle::Solid, true).unwrap();
    fc.add_edge("d", "b", None, LineStyle::Solid, true).unwrap();
    fc.add_edge("a", "e", None, LineStyle::Solid, true).unwrap();
    fc.add_edge("b", "e", None, LineStyle::Solid, true).unwrap();
    let v = check(&fc);
    assert!(v.iter().any(|x| x.property == "G1"));
    assert!(v.iter().any(|x| x.property == "G3" && x.message.contains("orphan")));
}

#[test]
fn violation_messages_exact() {
    let mut fc = Flowchart::new(Direction::TB);
    fc.add_node("s", "Start", Shape::Stadium).unwrap();
    fc.add_node("d", "?", Shape::Diamond).unwrap();
    fc.add_node("p", "P", Shape::Rectangle).unwrap();
    fc.add_node("q", "Q", Shape::Rectangle).unwrap();
    fc.add_node("r", "R", Shape::Rectangle).unwrap();
    fc.add_node("e", "End", Shape::Stadium).unwrap();
    fc.add_edge("s", "d", None, LineStyle::Solid, true).unwrap();
    fc.add_edge("d", "p", None, LineStyle::Solid, true).unwrap();
    fc.add_edge("p", "q", None, LineStyle::Solid, true).unwrap();
    fc.add_edge("p", "r", None, LineStyle::Solid, true).unwrap();
    fc.add_edge("q", "e", None, LineStyle::Solid, true).unwrap();
    let facts = LayoutFacts { overlaps: vec![(2, 3)], small_decisions: vec![(1, 90, 60)] };
    let mut v = Vec::new();
    check_chart(&fc, 3, &facts, &mut v);
    let got: Vec<(usize, &str, String)> =
        v.iter().map(|x| (x.page, x.property, x.message.clone())).collect();
    assert_eq!(
        got,
        vec![
            (3, "G1", "decision 'd' has 1 branch(es); a decision needs >=2".to_string()),
            (3, "G2", "step 'p' has 2 outgoing edges (use a decision for branching)".to_string()),
            (3, "G3", "node 'r' cannot reach an end".to_string()),
            (3, "L1", "nodes 'p' and 'q' overlap".to_string()),
            (3, "L2", "decision 'd' box 90x60 too small for its label".to_string()),
        ]
    );
}

#[test]
fn unlabeled_branch_count_message() {
    let mut fc = Flowchart::new(Direction::TB);
    fc.add_node("d", "?", Shape::Diamond).unwrap();
    fc.add_node("x", "X", Shape::Stadium).unwrap();
    fc.add_node("y", "Y", Shape::Stadium).unwrap();
    fc.add_edge("d", "x", Some("yes".into()), LineStyle::Solid, true).unwrap();
    fc.add_edge("d", "y", Some("  ".into()), LineStyle::Solid, true).unwrap();
    let v = check(&fc);
    assert_eq!(v[0].message, "decision 'd' has 1/2 unlabeled branches");
}

#[test]
fn reach_follows_edges_both_ways() {
    let fc = sample();
    let fwd = reach_from(&fc.edges, true, &vec!["a".to_string()]);
    let mut f: Vec<String> = fwd.clone();
    f.sort();
    assert_eq!(f, vec!["a", "b", "c"]);
    let bwd = reach_from(&fc.edges, false, &vec!["b".to_string()]);
    let mut b: Vec<String> = bwd.clone();
    b.sort();
    assert_eq!(b, vec!["a", "b"]);
}

#[test]
fn step_numbers_follow_flow_order() {
    let mut fc = Flowchart::new(Direction::TB);
    fc.add_node("s", "Start", Shape::Stadium).unwrap();
    fc.add_node("late", "Late", Shape::Rectangle).unwrap();
    fc.add_node("one", "One", Shape::Rectangle).unwrap();
    fc.add_node("two", "Two", Shape::Diamond).unwrap();
    fc.add_node("lone", "Lone", Shape::Rectangle).unwrap();
    fc.add_node("e", "End", Shape::Stadium).unwrap();
    fc.add_edge("s", "one", None, LineStyle::Solid, true).unwrap();
    fc.add_edge("one", "two", None, LineStyle::Solid, true).unwrap();
    fc.add_edge("two", "late", Some("y".into()), LineStyle::Solid, true).unwrap();
    fc.add_edge("two", "e", Some("n".into()), LineStyle::Solid, true).unwrap();
    fc.add_edge("late", "e", None, LineStyle::Solid, true).unwrap();
    fc.add_edge("lone", "lone", None, LineStyle::Solid, true).unwrap();
    let n = number_steps(&fc);
    let got: Vec<(String, usize)> = n;
    assert_eq!(
        got,
        vec![
            ("one".to_string(), 1),
            ("two".to_string(), 2),
            ("late".to_string(), 3),
            ("lone".to_string(), 4),
        ]
    );
}

#[test]
fn drawio_styles_exact() {
    assert_eq!(
        drawio_lane_style(false),
        "swimlane;whiteSpace=wrap;html=1;startSize=30;horizontal=0;fillColor=#F5F8FB;swimlaneFillColor=#FFFFFF;strokeColor=#9DB3C8;fontColor=#1F2A37;fontStyle=1;fontSize=13;"
    );
    let st = Style::empty();
    assert_eq!(
        drawio_style(Shape::Diamond, &st, None),
        "rhombus;whiteSpace=wrap;html=1;fillColor=#FFF2CC;strokeColor=#D6B656;fontColor=#7A5C00;fontSize=12;"
    );
    let mut st2 = Style::empty();
    st2.fill = Some("#ABC".into());
    st2.bold = Some(true);
    st2.italic = Some(true);
    st2.rounded = Some(true);
    assert_eq!(
        drawio_style(Shape::Stadium, &st2, None),
        "rounded=1;whiteSpace=wrap;html=1;arcSize=40;strokeColor=#15527F;fontColor=#FFFFFF;fontSize=12;fillColor=#ABC;fontStyle=3;"
    );
    assert_eq!(
        drawio_style(Shape::Rectangle, &st2, Some("a&b.png")),
        "shape=image;html=1;imageAspect=0;aspect=fixed;verticalLabelPosition=bottom;verticalAlign=top;image=a&amp;b.png;fillColor=#ABC;fontStyle=3;rounded=1;"
    );
}

#[test]
fn drawio_node_and_edge_values() {
    let mut fc = Flowchart::new(Direction::TB);
    fc.add_class_node("c", "User", vec![vec!["+ id: int".into()], vec!["+ a()".into(), "+ b()".into()]])
        .unwrap();
    fc.add_node("k", "K8s", Shape::Rectangle).unwrap();
    fc.set_node_stencil("k", Some("k8s.pod".into())).unwrap();
    fc.add_edge("c", "c", Some("refresh".into()), LineStyle::Dotted, true).unwrap();
    fc.add_edge("c", "k", None, LineStyle::Solid, true).unwrap();
    fc.style_edge(1, Some(Arrow::Diamond), Some(Arrow::Block), None, None).unwrap();
    let v = drawio_node_value(&fc.nodes[0]);
    assert!(v.starts_with("&lt;p style="));
    assert!(v.contains("&lt;b&gt;User&lt;/b&gt;"));
    assert!(v.contains("+ a()&lt;br/&gt;+ b()"));
    assert!(drawio_node_style(&fc.nodes[1]).starts_with("shape=mxgraph.kubernetes.pod;"));
    let e0: &Edge = &fc.edges[0];
    assert_eq!(
        drawio_edge_style(e0),
        "edgeStyle=loopEdgeStyle;html=1;rounded=1;dashed=1;startArrow=none;endArrow=classic;endFill=1;strokeColor=#44515E;fontColor=#44515E;fontSize=11;labelBackgroundColor=#FFFFFF;"
    );
    let s1 = drawio_edge_style(&fc.edges[1]);
    assert!(s1.contains("startArrow=diamond"));
    assert!(s1.contains("endArrow=block"));
    assert!(s1.starts_with("edgeStyle=orthogonalEdgeStyle;"));
    assert_eq!(
        drawio_container_style(&fc_with_pool().subgraphs[0]),
        "swimlane;whiteSpace=wrap;html=1;startSize=24;childLayout=stackLayout;horizontal=0;horizontalStack=1;resizeParent=1;collapsible=0;"
    );
}

fn fc_with_pool() -> Flowchart {
    let mut fc = Flowchart::new(Direction::TB);
    fc.add_subgraph("p", "Pool", vec![], ContainerKind::Pool, Some("vertical".into()), None).unwrap();
    fc
}

#[test]
fn check_document_numbers_pages() {
    let mut fc = sample();
    fc.add_node("o", "Orphan", Shape::Rectangle).unwrap();
    let per_page = check(&fc).len();
    assert!(per_page > 0);
    let mut doc = Document::new(Direction::TB);
    *doc.chart() = fc.clone();
    doc.add_page(None, Direction::TB);
    *doc.chart() = fc;
    let facts = vec![no_facts(), LayoutFacts { overlaps: vec![(0, 1)], small_decisions: vec![(1, 90, 40)] }];
    let v = check_document(&doc, &facts);
    assert_eq!(v.len(), 2 * per_page + 2);
    assert!(v[..per_page].iter().all(|x| x.page == 0));
    assert!(v[per_page..].iter().all(|x| x.page == 1));
    assert_eq!(v[v.len() - 2].message, "nodes 'a' and 'b' overlap");
    assert_eq!(v[v.len() - 1].message, "decision 'b' box 90x40 too small for its label");
}

#[test]
fn add_node_full_sets_everything_asked() {
    let mut fc = Flowchart::new(Direction::TB);
    let mut style = Style::empty();
    style.fill = Some("#D5E8D4".into());
    fc.add_node_full(
        "n",
        None,
        Shape::Note,
        Some("https://example.com/i.png".into()),
        Some("aws.ec2".into()),
        Some(true),
        Some(vec![vec!["+ id".into()]]),
        style,
    )
    .unwrap();
    let n = &fc.nodes[0];
    assert_eq!(n.label, "n");
    assert_eq!(n.shape, Shape::Note);
    assert_eq!(n.image.as_deref(), Some("https://example.com/i.png"));
    assert_eq!(n.stencil.as_deref(), Some("aws.ec2"));
    assert_eq!(n.html, Some(true));
    assert_eq!(n.compartments, vec![vec!["+ id".to_string()]]);
    assert_eq!(n.style.fill.as_deref(), Some("#D5E8D4"));
    let e = fc.add_node_full("n", Some("again".into()), Shape::Rectangle, None, None, None, None, Style::empty());
    assert!(e.is_err());
    assert_eq!(fc.nodes.len(), 1);
}

#[test]
fn add_edge_full_styles_and_routes() {
    let mut fc = sample();
    let i = fc
        .add_edge_full(
            "a",
            "c",
            Some("skip".into()),
            LineStyle::Thick,
            false,
            Some(Arrow::Oval),
            Some(Arrow::Diamond),
            None,
            Some("#FF0000".into()),
            Some(vec![flowchart_mcp::engine::Point::new("1", "2")]),
            Some(flowchart_mcp::engine::Point::new("1", "0.5")),
            None,
        )
        .unwrap();
    assert_eq!(i, 2);
    let e = &fc.edges[2];
    assert_eq!(e.start_arrow, Some(Arrow::Oval));
    assert_eq!(e.end_arrow, Some(Arrow::Diamond));
    assert_eq!(e.color.as_deref(), Some("#FF0000"));
    assert_eq!(e.waypoints.len(), 1);
    assert_eq!(e.exit.as_ref().map(|p| p.y.text.clone()), Some("0.5".to_string()));
    assert!(e.entry.is_none());
    assert!(fc.add_edge_full("a", "zz", None, LineStyle::Solid, true, None, None, None, None, None, None, None).is_err());
    assert_eq!(fc.edges.len(), 3);
}

#[test]
fn apply_theme_recolors_every_edge() {
    let mut fc = Flowchart::new(Direction::TB);
    fc.add_node("a", "Start", Shape::Stadium).unwrap();
    fc.add_node("b", "Ask", Shape::Diamond).unwrap();
    fc.add_node("c", "Do", Shape::Rectangle).unwrap();
    fc.add_edge("a", "b", None, LineStyle::Solid, true).unwrap();
    fc.add_edge("b", "c", None, LineStyle::Solid, true).unwrap();
    fc.edges[1].color = Some("#FF0000".to_string());
    assert_eq!(fc.apply_theme(flowchart_mcp::engine::Theme::Green), 3);
    assert_eq!(fc.edges[0].color.as_deref(), Some("#4A6B4A"));
    assert_eq!(fc.edges[1].color.as_deref(), Some("#4A6B4A"));
    assert_eq!(fc.nodes[0].style.fill.as_deref(), Some("#2E7D32"));
    assert_eq!(fc.nodes[1].style.fill.as_deref(), Some("#FFF2CC"));
    assert_eq!(fc.nodes[2].style.stroke.as_deref(), Some("#82B366"));
    assert_eq!(fc.nodes[2].style.text_color.as_deref(), Some("#1B3A1B"));
}
