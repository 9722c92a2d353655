use flowchart_mcp::engine::chart::lane_ids;
use flowchart_mcp::engine::export::to_mermaid;
use flowchart_mcp::engine::mxgraph::{drawio_page, to_drawio, to_drawio_page, PageGeometry, Rect};
use flowchart_mcp::engine::{
    Arrow, ContainerKind, Decimal, Direction, Document, EdgeRouting, Flowchart, LineStyle, Point,
    Shape, Style, Theme,
};
use flowchart_mcp::stencils::list_matches;
use flowchart_mcp::templates::build;

fn sample() -> Flowchart {
    let mut fc = Flowchart::new(Direction::TB);
    fc.add_node("a", "Start", Shape::Stadium).unwrap();
    fc.add_node("b", "Decide", Shape::Diamond).unwrap();
    fc.add_node("c", "End", Shape::Stadium).unwrap();
    fc.add_edge("a", "b", None, LineStyle::Solid, true).unwrap();
    fc.add_edge("b", "c", Some("yes".into()), LineStyle::Dotted, true).unwrap();
    fc
}

fn rect(x: &str, y: &str, w: &str, h: &str) -> Rect {
    Rect { x: x.into(), y: y.into(), w: w.into(), h: h.into() }
}

/// A stand-in layout: every box at the origin, lanes for the swimlanes,
/// waypoints written as given.
fn geometry(fc: &Flowchart) -> PageGeometry {
    PageGeometry {
        title_x: "24".into(),
        title_width: "200".into(),
        lanes: lane_ids(fc).into_iter().map(|id| (id, rect("0", "0", "100", "50"))).collect(),
        containers: fc.subgraphs.iter().map(|_| Some(rect("0", "0", "10", "10"))).collect(),
        nodes: fc.nodes.iter().map(|_| rect("0", "0", "160", "56")).collect(),
        badges: fc.nodes.iter().map(|_| rect("1", "2", "22", "22")).collect(),
        exits: fc.edges.iter().map(|_| None).collect(),
        entries: fc.edges.iter().map(|_| None).collect(),
        waypoints: fc
            .edges
            .iter()
            .map(|e| e.waypoints.iter().map(|p| (p.x.text.clone(), p.y.text.clone())).collect())
            .collect(),
        dx: "800".into(),
        dy: "600".into(),
    }
}

fn drawio(doc: &Document) -> String {
    let gs: Vec<PageGeometry> = doc.pages.iter().map(|p| geometry(&p.chart)).collect();
    to_drawio(doc, &gs)
}

fn doc_of(fc: Flowchart) -> Document {
    let mut doc = Document::new(fc.direction);
    *doc.chart() = fc;
    doc
}

#[test]
fn drawio_is_mxfile_multipage() {
    let mut doc = Document::new(Direction::TB);
    *doc.chart() = sample();
    doc.add_page(Some("Second".into()), Direction::LR);
    doc.chart().add_node("x", "X", Shape::Rectangle).unwrap();
    let x = drawio(&doc);
    assert!(x.contains("<mxfile"));
    assert_eq!(x.matches("<diagram").count(), 2);
    assert!(x.contains("rhombus"));
}

#[test]
fn drawio_swimlane_renders_as_band() {
    let mut fc = Flowchart::new(Direction::LR);
    fc.add_node("n", "N", Shape::Rectangle).unwrap();
    fc.add_subgraph("pool", "Pool", vec![], ContainerKind::Pool, None, None).unwrap();
    fc.add_subgraph("lane", "Lane", vec!["n".into()], ContainerKind::Swimlane, None, Some("pool".into())).unwrap();
    let mut doc = Document::new(Direction::LR);
    *doc.chart() = fc;
    let x = drawio(&doc);
    assert!(x.contains("swimlane"));
    assert!(x.contains("value=\"Lane\""));
    assert!(x.contains("id=\"lane\" value=\"Lane\""));
}

#[test]
fn drawio_edge_arrowheads() {
    let mut fc = sample();
    fc.style_edge(0, Some(Arrow::Diamond), Some(Arrow::Block), None, None).unwrap();
    let mut doc = Document::new(Direction::TB);
    *doc.chart() = fc;
    let x = drawio(&doc);
    assert!(x.contains("startArrow=diamond"));
    assert!(x.contains("endArrow=block"));
}

#[test]
fn html_label_stripped_in_text_kept_in_drawio() {
    let mut fc = Flowchart::new(Direction::TB);
    fc.add_node("a", "<b>Title</b><br>line two", Shape::Rectangle).unwrap();
    fc.set_node_html("a", Some(true)).unwrap();
    let m = to_mermaid(&fc);
    assert!(m.contains("Title line two"), "got: {m}");
    assert!(!m.contains("<b>"));
    let mut doc = Document::new(Direction::TB);
    *doc.chart() = fc;
    let x = drawio(&doc);
    assert!(x.contains("&lt;b&gt;Title&lt;/b&gt;"));
}

#[test]
fn wave4_styles_layers_labels_in_drawio() {
    let mut fc = Flowchart::new(Direction::TB);
    fc.add_node("a", "A", Shape::Rectangle).unwrap();
    fc.add_node("b", "B", Shape::Rectangle).unwrap();
    fc.style_node(
        "a",
        Style { gradient: Some("#7EA6E0".into()), sketch: Some(true), glass: Some(true), ..Default::default() },
    )
    .unwrap();
    fc.add_layer("bg", "Background", false).unwrap();
    fc.set_node_layer("b", Some("bg".into())).unwrap();
    let i = fc.add_edge("a", "b", Some("go".into()), LineStyle::Solid, true).unwrap();
    fc.label_edge(i, Some(Decimal::new("-0.4")), Some(Decimal::new("12")), Some("#FFFFCC".into()), Some("#D6B656".into()))
        .unwrap();
    fc.apply_theme(Theme::Green);

    let mut doc = Document::new(Direction::TB);
    *doc.chart() = fc;
    let x = drawio(&doc);
    assert!(x.contains("gradientColor=#7EA6E0"));
    assert!(x.contains("sketch=1"));
    assert!(x.contains("glass=1"));
    assert!(x.contains("id=\"bg\" value=\"Background\""));
    assert!(x.contains("visible=\"0\""));
    assert!(x.contains("parent=\"bg\""));
    assert!(x.contains("labelBackgroundColor=#FFFFCC"));
    assert!(x.contains("labelBorderColor=#D6B656"));
    assert!(x.contains("fillColor=#D5E8D4"));
}

#[test]
fn drawio_emits_fixed_ports_and_waypoints() {
    let mut fc = sample();
    fc.route_edge(
        0,
        Some(vec![Point::new("300", "150"), Point::new("300", "250")]),
        Some(Point::new("1", "0.5")),
        Some(Point::new("0", "0.5")),
        false,
    )
    .unwrap();
    let mut doc = Document::new(Direction::TB);
    *doc.chart() = fc;
    let x = drawio(&doc);
    assert!(x.contains("exitX=1;exitY=0.5"));
    assert!(x.contains("entryX=0;entryY=0.5"));
    assert!(x.contains("<Array as=\"points\">"));
    assert!(x.contains("<mxPoint x=\"300\""));
}

#[test]
fn drawio_page_exact_text() {
    let mut fc = Flowchart::new(Direction::TB);
    fc.title = Some("T & co".into());
    fc.add_node("1a", "One", Shape::Rectangle).unwrap();
    fc.add_node("b", "Two", Shape::Rectangle).unwrap();
    fc.add_edge("1a", "b", Some("go".into()), LineStyle::Solid, true).unwrap();
    fc.number_steps = true;
    let mut g = geometry(&fc);
    g.exits[0] = Some(("0.5".into(), "1".into()));
    let x = drawio_page("P 1", &fc, &g);
    let want = [
        "  <diagram id=\"P_1\" name=\"P 1\">\n",
        "    <mxGraphModel dx=\"800\" dy=\"600\" grid=\"1\" gridSize=\"10\" guides=\"1\" tooltips=\"1\" connect=\"1\" arrows=\"1\" fold=\"1\" page=\"1\" pageScale=\"1\" math=\"0\" shadow=\"0\">\n",
        "      <root>\n",
        "        <mxCell id=\"0\"/>\n",
        "        <mxCell id=\"1\" parent=\"0\"/>\n",
        "        <mxCell id=\"title\" value=\"T &amp; co\" style=\"text;html=1;strokeColor=none;fillColor=none;align=left;verticalAlign=middle;whiteSpace=wrap;fontSize=18;fontStyle=1;fontColor=#1F2A37;\" vertex=\"1\" parent=\"1\">\n",
        "          <mxGeometry x=\"24\" y=\"8\" width=\"200\" height=\"32\" as=\"geometry\"/>\n",
        "        </mxCell>\n",
    ]
    .concat();
    assert!(x.starts_with(&want), "{x}");
    assert!(x.contains("<mxCell id=\"n_1a\" value=\"One\""));
    assert!(x.contains("<mxCell id=\"n_1a_badge\" value=\"1\""));
    assert!(x.contains("<mxCell id=\"b_badge\" value=\"2\""));
    assert!(x.contains("exitX=0.5;exitY=1;exitDx=0;exitDy=0;"));
    assert!(x.contains(
        "<mxCell id=\"edge0\" value=\"go\" style=\""
    ));
    assert!(x.contains("edge=\"1\" parent=\"1\" source=\"n_1a\" target=\"b\">\n          <mxGeometry relative=\"1\" as=\"geometry\"/>\n        </mxCell>\n"));
    assert!(x.ends_with("      </root>\n    </mxGraphModel>\n  </diagram>\n"));

    let whole = to_drawio_page("P 1", &fc, &g);
    assert_eq!(whole, format!("<mxfile host=\"app.diagrams.net\" type=\"device\">\n{x}</mxfile>\n"));
}

#[test]
fn drawio_label_placement_follows_fan_out() {
    let mut fc = Flowchart::new(Direction::TB);
    for id in ["d", "x", "y"] {
        fc.add_node(id, id, Shape::Rectangle).unwrap();
    }
    fc.add_edge("d", "x", Some("left".into()), LineStyle::Solid, true).unwrap();
    fc.add_edge("d", "y", Some("right".into()), LineStyle::Solid, true).unwrap();
    fc.add_edge("x", "y", Some("".into()), LineStyle::Solid, true).unwrap();
    let x = drawio_page("p", &fc, &geometry(&fc));
    assert_eq!(x.matches("<mxGeometry x=\"-0.5\" relative=\"1\" as=\"geometry\"><mxPoint as=\"offset\"/></mxGeometry>").count(), 2);
    // An empty label is no label: the fan-in edge keeps the plain geometry.
    assert!(!x.contains("x=\"0.5\" relative"));
    let doc = doc_of(fc);
    assert_eq!(drawio(&doc).matches("<diagram").count(), 1);
}

#[test]
fn uml_class_and_self_loop_in_drawio() {
    let mut fc = Flowchart::new(Direction::TB);
    fc.add_class_node("c", "User", vec![vec!["+ id: int".into()], vec!["+ login(): void".into()]]).unwrap();
    fc.add_edge("c", "c", Some("refresh".into()), LineStyle::Solid, true).unwrap();
    let x = drawio(&doc_of(fc));
    assert!(x.contains("&lt;b&gt;User&lt;/b&gt;"));
    assert!(x.contains("+ login(): void"));
    assert!(x.contains("loopEdgeStyle"));
}

#[test]
fn containers_pages_arrows_images() {
    let mut doc = Document::new(Direction::TB);
    {
        let fc = doc.chart();
        fc.add_node("x", "X", Shape::Note).unwrap();
        fc.add_node("y", "Y", Shape::Rectangle).unwrap();
        fc.set_node_image("y", Some("https://example.com/i.png".into())).unwrap();
        fc.add_edge_full(
            "x",
            "y",
            None,
            LineStyle::Solid,
            true,
            Some(Arrow::Oval),
            Some(Arrow::Diamond),
            Some(EdgeRouting::Curved),
            Some("#FF0000".into()),
            None,
            None,
            None,
        )
        .unwrap();
        assert!(fc.add_subgraph("pool", "Pool", vec![], ContainerKind::Pool, None, None).is_ok());
        assert!(fc
            .add_subgraph(
                "lane1",
                "Lane 1",
                vec!["x".into(), "y".into()],
                ContainerKind::Swimlane,
                None,
                Some("pool".into()),
            )
            .is_ok());
    }
    assert_eq!(doc.add_page(Some("Details".into()), Direction::LR), 1);
    doc.chart().add_node("p2", "P2", Shape::Card).unwrap();

    let xml = drawio(&doc);
    assert_eq!(xml.matches("<diagram").count(), 2);
    assert!(xml.contains("swimlane"));
    assert!(xml.contains("value=\"Lane 1\""));
    assert!(xml.contains("endArrow=diamond"));
    assert!(xml.contains("startArrow=oval"));
    assert!(xml.contains("shape=image"));

    doc.select_page(0).unwrap();
    assert_eq!(doc.pages.len(), 2);
    assert!(doc.chart().subgraphs.iter().any(|s| s.kind == ContainerKind::Pool));

    let erd = build("erd").unwrap();
    assert!(drawio(&erd).contains("ERmany"));

    assert!(list_matches(Some("aws"), None).len() >= 5);
    let mut st = Flowchart::new(Direction::TB);
    st.add_node("db", "Users", Shape::Rectangle).unwrap();
    st.set_node_stencil("db", Some("aws.rds".into())).unwrap();
    st.add_node("fn", "Handler", Shape::Rectangle).unwrap();
    assert!(st.set_node_stencil("fn", Some("aws.lambda".into())).is_ok());
    let sxml = drawio(&doc_of(st));
    assert!(sxml.contains("resIcon=mxgraph.aws4.rds"));
    assert!(sxml.contains("resIcon=mxgraph.aws4.lambda"));
}
