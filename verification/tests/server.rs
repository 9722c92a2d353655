use flowchart_mcp::engine::{Arrow, ContainerKind, Decimal, Direction, EdgeRouting, LayoutKind, LineStyle, Shape};
use flowchart_mcp::server::{
    build_document, build_page_chart, container_kind_param, create_document, direction_param,
    edge_style_params, edge_update_params, export_format, layout_param, move_params, opt_arrow,
    opt_routing, page_file_name, pages_format, parse_direction, parse_line, parse_shape,
    route_params, sanitize_filename, shape_param, opt_shape, style_params, ExportFormat,
};
use flowchart_mcp::engine::validate::{check_document, LayoutFacts};
use flowchart_mcp::text::replace_lit;
use flowchart_mcp::types::inputs::{BuildDocumentInput, EdgeSpec, NodeSpec, PageSpec, StyleFields};

fn style() -> StyleFields {
    StyleFields {
        fill: None,
        stroke: None,
        text_color: None,
        stroke_width: None,
        font_family: None,
        font_size: None,
        bold: None,
        italic: None,
        align: None,
        opacity: None,
        rounded: None,
        shadow: None,
        dashed: None,
    }
}

fn node(id: &str, label: Option<&str>, shape: Option<&str>, lane: Option<&str>) -> NodeSpec {
    NodeSpec {
        id: id.into(),
        label: label.map(|s| s.into()),
        shape: shape.map(|s| s.into()),
        lane: lane.map(|s| s.into()),
        image: None,
        stencil: None,
        style: style(),
    }
}

fn edge(from: &str, to: &str, label: Option<&str>) -> EdgeSpec {
    EdgeSpec {
        from: from.into(),
        to: to.into(),
        label: label.map(|s| s.into()),
        line: None,
        arrow: None,
        end_arrow: None,
        start_arrow: None,
        routing: None,
        color: None,
    }
}

fn page(nodes: Vec<NodeSpec>, edges: Vec<EdgeSpec>, lanes: Vec<&str>) -> PageSpec {
    PageSpec {
        name: None,
        title: None,
        direction: None,
        nodes,
        edges,
        lanes: lanes.into_iter().map(|s| s.to_string()).collect(),
    }
}

#[test]
fn builds_page_with_lanes() {
    let mut n = node("dec", Some("Consolidated?"), Some("diamond"), Some("System"));
    n.style.fill = Some("#FFF".into());
    n.style.font_size = Some(Decimal::new("14"));
    let spec = page(
        vec![
            node("start", Some("Start"), Some("stadium"), Some("Manifest Team")),
            n,
            node("job", None, Some("document"), Some("System")),
            node("end", Some("End"), Some("stadium"), Some("Manifest Team")),
        ],
        vec![
            edge("start", "dec", None),
            edge("dec", "job", Some("Yes")),
            edge("dec", "end", Some("No")),
            edge("job", "end", None),
        ],
        vec!["Manifest Team", "System"],
    );
    let (fc, name) = build_page_chart(spec, Direction::LR, 0).ok().unwrap();
    assert_eq!(name, "Page-1");
    assert_eq!(fc.direction, Direction::LR);
    assert_eq!(fc.nodes.len(), 4);
    assert_eq!(fc.nodes[1].shape, Shape::Diamond);
    assert_eq!(fc.nodes[1].style.fill.as_deref(), Some("#FFF"));
    assert_eq!(fc.nodes[1].style.font_size.as_ref().unwrap().text, "14");
    assert_eq!(fc.nodes[2].label, "job");
    assert_eq!(fc.edges.len(), 4);
    assert_eq!(fc.edges[1].label.as_deref(), Some("Yes"));
    assert!(fc.edges[0].arrow);
    assert_eq!(fc.subgraphs.len(), 2);
    assert_eq!(fc.subgraphs[0].id, "lane0");
    assert_eq!(fc.subgraphs[0].label, "Manifest Team");
    assert_eq!(fc.subgraphs[0].members, vec!["start".to_string(), "end".to_string()]);
    assert_eq!(fc.subgraphs[1].id, "lane1");
    assert_eq!(fc.subgraphs[1].members, vec!["dec".to_string(), "job".to_string()]);
    assert_eq!(fc.subgraphs[1].kind, ContainerKind::Swimlane);
}

#[test]
fn build_page_names_and_directions() {
    let mut spec = page(vec![node("a", None, None, None)], vec![], vec![]);
    spec.name = Some("Exit".into());
    spec.direction = Some("rl".into());
    spec.title = Some("2. Exit".into());
    let (fc, name) = build_page_chart(spec, Direction::TB, 4).ok().unwrap();
    assert_eq!(name, "Exit");
    assert_eq!(fc.direction, Direction::RL);
    assert_eq!(fc.title.as_deref(), Some("2. Exit"));
    assert_eq!(fc.nodes[0].shape, Shape::Rectangle);
    let spec = page(vec![node("a", None, None, None)], vec![], vec![]);
    let (_, name) = build_page_chart(spec, Direction::TB, 11).ok().unwrap();
    assert_eq!(name, "Page-12");
}

fn err_of(spec: PageSpec) -> (String, String, String) {
    match build_page_chart(spec, Direction::TB, 0) {
        Ok(_) => panic!("expected an error"),
        Err(e) => (e.category, e.message, e.suggestion),
    }
}

#[test]
fn page_lane_errors_name_the_node() {
    let spec = page(vec![node("a", None, None, Some("Nowhere"))], vec![], vec!["Ops"]);
    let (cat, msg, _) = err_of(spec);
    assert_eq!(cat, "invalid_input");
    assert_eq!(msg, "Node 'a' references unknown lane 'Nowhere'");
    let spec = page(vec![node("a", None, None, None)], vec![], vec!["Ops"]);
    let (cat, msg, _) = err_of(spec);
    assert_eq!(cat, "invalid_input");
    assert_eq!(msg, "Node 'a' has no lane but the page declares lanes");
}

#[test]
fn page_decision_error_counts_labels() {
    let spec = page(
        vec![
            node("c", Some("Full / half / empty?"), Some("diamond"), None),
            node("f", Some("Full"), None, None),
            node("h", Some("Half"), None, None),
            node("e", Some("Empty"), None, None),
        ],
        vec![edge("c", "f", Some("full")), edge("c", "h", None), edge("c", "e", Some(" "))],
        vec![],
    );
    let (cat, msg, _) = err_of(spec);
    assert_eq!(cat, "invalid_input");
    assert_eq!(msg, "Decision 'c' has 3 outgoing branches but only 1 are labeled");
}

#[test]
fn build_page_errors_in_order() {
    let mut spec = page(vec![node("a", None, Some("blob"), None)], vec![], vec![]);
    spec.direction = Some("sideways".into());
    let (_, msg, sug) = err_of(spec);
    assert_eq!(msg, "Unknown direction 'sideways'");
    assert_eq!(sug, "Use TB, BT, LR, or RL.");
    let spec = page(vec![node("a", None, Some("blob"), None)], vec![], vec![]);
    assert_eq!(err_of(spec).1, "Unknown shape 'blob'");
    let spec = page(vec![node("a", None, None, None), node("a", None, None, None)], vec![], vec![]);
    let (cat, msg, _) = err_of(spec);
    assert_eq!(cat, "duplicate");
    assert_eq!(msg, "already exists: node 'a'");
    let spec = page(vec![node(" ", None, None, None)], vec![], vec![]);
    assert_eq!(err_of(spec).1, "invalid input: node id must not be empty");
    let spec = page(vec![node("a", None, None, None)], vec![edge("a", "zz", None)], vec![]);
    let (cat, msg, _) = err_of(spec);
    assert_eq!(cat, "not_found");
    assert_eq!(msg, "not found: node 'zz'");
    let mut e = edge("a", "a", None);
    e.line = Some("wavy".into());
    let spec = page(vec![node("a", None, None, None)], vec![e], vec![]);
    assert_eq!(err_of(spec).1, "Unknown line style 'wavy'");
    let mut e = edge("a", "a", None);
    e.end_arrow = Some("hook".into());
    let spec = page(vec![node("a", None, None, None)], vec![e], vec![]);
    assert_eq!(err_of(spec).1, "Unknown arrow 'hook'");
    let mut e = edge("a", "a", None);
    e.routing = Some("zigzag".into());
    let spec = page(vec![node("a", None, None, None)], vec![e], vec![]);
    assert_eq!(err_of(spec).1, "Unknown routing 'zigzag'");
}

#[test]
fn parameter_parsers() {
    assert_eq!(parse_direction("lr").ok(), Some(Direction::LR));
    assert_eq!(parse_direction("x").err().unwrap().message, "Unknown direction 'x'");
    assert_eq!(parse_shape("Round Rect").ok(), Some(Shape::RoundRect));
    assert_eq!(parse_line(&None).ok(), Some(LineStyle::Solid));
    assert_eq!(parse_line(&Some("DASHED".into())).ok(), Some(LineStyle::Dotted));
    assert!(opt_arrow(&None).ok().unwrap().is_none());
    assert!(opt_routing(&Some("curve".into())).ok().unwrap().is_some());
}

#[test]
fn sanitize_filename_cases() {
    assert_eq!(sanitize_filename("1. Manifest Capture"), "1.-Manifest-Capture");
    assert_eq!(sanitize_filename("a/b\\c:d"), "a-b-c-d");
    assert_eq!(sanitize_filename("  --x--  "), "x");
    assert_eq!(sanitize_filename("???"), "");
    assert_eq!(sanitize_filename("ok"), "ok");
}

fn doc_input(direction: Option<&str>, pages: Vec<PageSpec>) -> BuildDocumentInput {
    BuildDocumentInput { direction: direction.map(|d| d.into()), pages }
}

#[test]
fn build_document_rejects_bad_lane() {
    let spec = page(vec![node("x", Some("X"), None, Some("B"))], vec![], vec!["A"]);
    let res = build_document(doc_input(None, vec![spec]));
    let e = res.err().expect("expected an error");
    assert_eq!(e.category, "invalid_input");
}

#[test]
fn build_document_rejects_unlabeled_decision_branches() {
    let bad = page(
        vec![
            node("d", Some("Full / half / empty?"), Some("diamond"), None),
            node("a", Some("A"), None, None),
            node("b", Some("B"), None, None),
        ],
        vec![edge("d", "a", None), edge("d", "b", None)],
        vec![],
    );
    let res = build_document(doc_input(None, vec![bad]));
    let e = res.err().expect("expected an error");
    assert_eq!(e.category, "invalid_input");

    let ok = page(
        vec![
            node("d", Some("Container state?"), Some("diamond"), None),
            node("f", Some("Full"), None, None),
            node("h", Some("Half"), None, None),
            node("e", Some("Empty"), None, None),
        ],
        vec![edge("d", "f", Some("full")), edge("d", "h", Some("half")), edge("d", "e", Some("empty"))],
        vec![],
    );
    let res2 = build_document(doc_input(None, vec![ok]));
    assert!(res2.is_ok());
}

#[test]
fn build_document_keeps_page_order_and_names() {
    let mut first = page(vec![node("a", Some("A"), None, None)], vec![], vec![]);
    first.name = Some("Intro".into());
    let second = page(
        vec![node("b", Some("B"), None, None), node("c", Some("C"), None, None)],
        vec![edge("b", "c", None)],
        vec![],
    );
    let doc = build_document(doc_input(Some("LR"), vec![first, second])).ok().unwrap();
    assert_eq!(doc.current, 0);
    assert_eq!(doc.pages.len(), 2);
    assert_eq!(doc.pages[0].name, "Intro");
    assert_eq!(doc.pages[1].name, "Page-2");
    assert_eq!(doc.pages[0].chart.direction, Direction::LR);
    assert_eq!(doc.pages[1].chart.nodes.len(), 2);
    assert_eq!(doc.pages[1].chart.edges.len(), 1);
}

#[test]
fn build_document_errors() {
    let e = build_document(doc_input(None, vec![])).err().unwrap();
    assert_eq!(e.category, "invalid_input");
    assert_eq!(e.message, "No pages provided");
    assert_eq!(e.suggestion, "Provide at least one page in `pages`.");

    let p = page(vec![node("a", None, None, None)], vec![], vec![]);
    let e = build_document(doc_input(Some("up-ish"), vec![p])).err().unwrap();
    assert_eq!(e.message, "Unknown direction 'up-ish'");

    // The first bad page decides, even when a later one is bad too.
    let good = page(vec![node("a", None, None, None)], vec![], vec![]);
    let bad1 = page(vec![node("b", None, Some("blob"), None)], vec![], vec![]);
    let bad2 = page(vec![node("c", None, None, None)], vec![edge("c", "zz", None)], vec![]);
    let e = build_document(doc_input(None, vec![good, bad1, bad2])).err().unwrap();
    assert_eq!(e.message, "Unknown shape 'blob'");
}

#[test]
fn page_file_names() {
    assert_eq!(page_file_name("{index}-{name}.{ext}", 0, "My Page", "drawio"), "01-My-Page.drawio");
    assert_eq!(page_file_name("{index}-{name}.{ext}", 11, "a/b", "svg"), "12-a-b.svg");
    assert_eq!(page_file_name("p{index}{index}", 2, "x", "mmd"), "p0303");
    assert_eq!(page_file_name("plain", 4, "x", "dot"), "plain");
}

#[test]
fn replace_matches_std() {
    for (s, p, w) in [("aaa", "aa", "b"), ("x{a}y{a}", "{a}", "Q"), ("none", "zz", "y"), ("", "a", "b")] {
        assert_eq!(replace_lit(s, p, w), s.replace(p, w));
    }
}

fn msg<T>(r: Result<T, flowchart_mcp::error::ErrorResponse>) -> (String, String) {
    match r {
        Ok(_) => panic!("expected an error"),
        Err(e) => (e.message, e.suggestion),
    }
}

fn dec(s: &str) -> Option<Decimal> {
    Some(Decimal::new(s))
}

#[test]
fn small_parameter_rules() {
    assert_eq!(layout_param("Mind-Map").ok(), Some(LayoutKind::MindMap));
    assert_eq!(msg(layout_param("grid")).0, "Unknown layout 'grid'");
    assert_eq!(container_kind_param(&None).ok(), Some(ContainerKind::Group));
    assert_eq!(container_kind_param(&Some("LANE".into())).ok(), Some(ContainerKind::Swimlane));
    assert_eq!(msg(container_kind_param(&Some("tub".into()))).0, "Unknown container kind 'tub'");
    assert_eq!(direction_param(&None).ok(), Some(Direction::TB));
    assert_eq!(direction_param(&Some("left".into())).ok(), Some(Direction::RL));

    let (pos, size) = move_params(dec("10"), dec("20"), None, None, false).ok().unwrap();
    assert_eq!(pos.map(|p| (p.x.text, p.y.text)), Some(("10".to_string(), "20".to_string())));
    assert!(size.is_none());
    assert_eq!(
        msg(move_params(dec("1"), None, None, None, false)),
        ("x and y must be provided together".to_string(), "Pass both x and y, or neither.".to_string())
    );
    assert_eq!(msg(move_params(None, None, None, dec("3"), true)).0, "w and h must be provided together");
    assert_eq!(msg(move_params(None, None, None, None, false)).0, "Nothing to set");
    assert!(move_params(None, None, None, None, true).is_ok());

    let (a, b, c) = edge_style_params(&Some("er_many".into()), &None, &Some("curved".into()), &None).ok().unwrap();
    assert_eq!((a, b, c), (Some(Arrow::ErMany), None, Some(EdgeRouting::Curved)));
    assert!(edge_style_params(&None, &None, &None, &Some("#000".into())).is_ok());
    assert_eq!(msg(edge_style_params(&None, &None, &None, &None)).0, "No edge style fields provided");
    assert_eq!(msg(edge_style_params(&None, &Some("spear".into()), &None, &None)).0, "Unknown arrow 'spear'");

    assert_eq!(edge_update_params(&None, &Some("Thick".into())).ok(), Some(Some(LineStyle::Thick)));
    assert_eq!(edge_update_params(&Some("x".into()), &None).ok(), Some(None));
    assert_eq!(msg(edge_update_params(&None, &None)).0, "Nothing to update");
    assert_eq!(msg(edge_update_params(&None, &Some("wavy".into()))).0, "Unknown line style 'wavy'");

    assert!(route_params(true, false, false, false).is_ok());
    assert!(route_params(false, false, true, false).is_ok());
    assert_eq!(msg(route_params(false, false, false, false)).1, "Provide waypoints, exit, entry, or clear:true.");

    assert_eq!(msg(style_params(style())).0, "No style fields provided");
    let mut st = style();
    st.bold = Some(true);
    assert_eq!(style_params(st).ok().unwrap().bold, Some(true));
}

#[test]
fn export_format_names() {
    assert_eq!(export_format("XML").ok(), Some(ExportFormat::Drawio));
    assert_eq!(export_format("graphviz").ok(), Some(ExportFormat::Dot));
    assert_eq!(export_format("PDF").ok(), Some(ExportFormat::Pdf));
    assert_eq!(msg(export_format("PNG")).0, "Unknown format 'png'");
    assert_eq!(pages_format("Mmd").ok(), Some(ExportFormat::Mermaid));
    assert_eq!(msg(pages_format("PDF")), ("Unknown format 'PDF'".to_string(), "Use drawio, mermaid, dot, svg, or json.".to_string()));
}

#[test]
fn create_document_cases() {
    let doc = create_document(&None, &None, Some("T".into()), &None).ok().unwrap();
    assert_eq!(doc.pages.len(), 1);
    assert_eq!(doc.pages[0].chart.direction, Direction::TB);
    assert_eq!(doc.pages[0].chart.title.as_deref(), Some("T"));
    assert_eq!(doc.pages[0].chart.layout, LayoutKind::Layered);

    let doc = create_document(&None, &Some("etl".into()), None, &Some("tree".into())).ok().unwrap();
    assert_eq!(doc.pages[0].chart.direction, Direction::LR);
    assert_eq!(doc.pages[0].chart.layout, LayoutKind::Tree);
    assert!(!doc.pages[0].chart.nodes.is_empty());

    let doc = create_document(&Some("BT".into()), &Some("etl".into()), None, &None).ok().unwrap();
    assert_eq!(doc.pages[0].chart.direction, Direction::BT);

    assert_eq!(msg(create_document(&Some("up?".into()), &Some("nope".into()), None, &None)).0, "Unknown direction 'up?'");
    assert_eq!(msg(create_document(&None, &Some("nope".into()), None, &Some("bad".into()))).0, "Unknown template 'nope'");
    assert_eq!(msg(create_document(&None, &None, None, &Some("bad".into()))).0, "Unknown layout 'bad'");
}

#[test]
fn shape_params() {
    assert_eq!(shape_param(&None).ok(), Some(Shape::Rectangle));
    assert_eq!(shape_param(&Some("Start End".into())).ok(), Some(Shape::Stadium));
    assert_eq!(msg(shape_param(&Some("blob".into()))).0, "Unknown shape 'blob'");
    assert_eq!(opt_shape(&None).ok(), Some(None));
    assert_eq!(opt_shape(&Some("db".into())).ok(), Some(Some(Shape::Cylinder)));
}

#[test]
fn unicode_whitespace_and_letters() {
    assert_eq!(sanitize_filename("a\u{3000}b\u{2003}c"), "a-b-c");
    assert_eq!(flowchart_mcp::text::ident("é-1", "n_"), "é_1");
    assert_eq!(flowchart_mcp::text::ident("١x", "n_"), "١x");
}

#[test]
fn validate_flowchart_reports_properties() {
    let mut p = page(
        vec![
            node("s", Some("Start"), Some("stadium"), Some("Ops")),
            node("d", Some("Route?"), Some("diamond"), Some("Ops")),
            node("a", Some("A"), None, Some("Ops")),
            node("b", Some("B"), None, Some("Ops")),
            node("c", Some("C"), None, Some("Ops")),
            node("m", Some("Merge"), None, Some("Ops")),
            node("e", Some("End"), Some("stadium"), Some("Ops")),
        ],
        vec![
            edge("s", "d", None),
            edge("d", "a", Some("x")),
            edge("d", "b", Some("y")),
            edge("d", "c", Some("z")),
            edge("a", "m", None),
            edge("b", "m", None),
            edge("c", "m", None),
            edge("m", "e", None),
        ],
        vec!["Ops"],
    );
    p.name = Some("Branch".into());
    let doc = build_document(doc_input(Some("LR"), vec![p])).ok().unwrap();
    let facts: Vec<LayoutFacts> =
        doc.pages.iter().map(|_| LayoutFacts { overlaps: vec![], small_decisions: vec![] }).collect();
    let rep = check_document(&doc, &facts);
    assert!(rep.is_empty(), "report: {:?}", rep.len());
    assert_eq!(rep.len(), 0);
}

#[test]
fn sanitize_filename_is_idempotent() {
    let r = sanitize_filename("1. Manifest Capture");
    assert_eq!(r, "1.-Manifest-Capture");
    assert_eq!(sanitize_filename(&r), r);
    assert_eq!(sanitize_filename("Manifest"), "Manifest");
    let odd = sanitize_filename("  a // b ?? c  ");
    assert_eq!(odd, "a-b-c");
    assert_eq!(sanitize_filename(&odd), odd);
}

#[test]
fn sanitize_filename_treats_unicode_spaces_as_whitespace() {
    assert_eq!(sanitize_filename("a\u{3000}b\u{00A0}c\u{2009}d"), "a-b-c-d");
    assert_eq!(sanitize_filename("a\u{200B}b"), "a\u{200B}b");
}
