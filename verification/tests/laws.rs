use flowchart_mcp::engine::chart::{lane_ids, ordered_containers};
use flowchart_mcp::engine::drawio::themed_style;
use flowchart_mcp::engine::export::strip_html;
use flowchart_mcp::engine::steps::number_steps;
use flowchart_mcp::engine::{
    ContainerKind, Decimal, Direction, Flowchart, LayoutKind, LineStyle, Shape, Style, Theme,
};
use flowchart_mcp::sequence::{MessageKind, Sequence};
use flowchart_mcp::store::FlowchartStore;

#[test]
fn names_parse_back() {
    for k in [ContainerKind::Group, ContainerKind::Container, ContainerKind::Swimlane, ContainerKind::Pool] {
        assert_eq!(ContainerKind::parse(k.label()), Some(k));
    }
    for t in [Theme::Blue, Theme::Green, Theme::Gray, Theme::Purple, Theme::Orange, Theme::Dark] {
        assert_eq!(Theme::parse(t.label()), Some(t));
    }
    for l in [LayoutKind::Layered, LayoutKind::Tree, LayoutKind::MindMap] {
        assert_eq!(LayoutKind::parse(l.label()), Some(l));
    }
    for m in [MessageKind::Sync, MessageKind::Async, MessageKind::Return, MessageKind::Create, MessageKind::Destroy] {
        assert_eq!(MessageKind::parse(m.label()), Some(m));
    }
    for d in [Direction::TB, Direction::BT, Direction::LR, Direction::RL] {
        assert_eq!(Direction::parse(d.as_mermaid()), Some(d));
    }
}

fn filled() -> Style {
    let mut s = Style::empty();
    s.fill = Some("#111111".into());
    s.bold = Some(false);
    s.font_size = Some(Decimal::new("9"));
    s
}

#[test]
fn merge_overlays_set_fields_only() {
    let mut a = filled();
    let before = a.clone();
    a.merge(Style::empty());
    assert_eq!(a.fill, before.fill);
    assert_eq!(a.bold, before.bold);

    let mut o = Style::empty();
    o.stroke = Some("#222222".into());
    o.bold = Some(true);
    let mut b = filled();
    b.merge(o);
    assert_eq!(b.fill.as_deref(), Some("#111111"));
    assert_eq!(b.stroke.as_deref(), Some("#222222"));
    assert_eq!(b.bold, Some(true));
    assert_eq!(b.font_size.map(|d| d.text), Some("9".to_string()));
}

#[test]
fn removed_node_takes_its_edges() {
    let mut fc = Flowchart::new(Direction::TB);
    for id in ["a", "b", "c"] {
        fc.add_node(id, id, Shape::Rectangle).unwrap();
    }
    fc.add_edge("a", "b", None, LineStyle::Solid, true).unwrap();
    fc.add_edge("b", "c", None, LineStyle::Solid, true).unwrap();
    fc.add_edge("a", "c", None, LineStyle::Solid, true).unwrap();
    assert_eq!(fc.remove_node("b").unwrap(), 2);
    assert_eq!(fc.edges.len(), 1);
    assert!(fc.edges.iter().all(|e| e.from != "b" && e.to != "b"));
}

#[test]
fn step_numbers_count_up_and_skip_terminators() {
    let mut fc = Flowchart::new(Direction::TB);
    fc.add_node("s", "Start", Shape::Stadium).unwrap();
    fc.add_node("p", "Work", Shape::Rectangle).unwrap();
    fc.add_node("d", "Ok?", Shape::Diamond).unwrap();
    fc.add_node("e", "End", Shape::Stadium).unwrap();
    fc.add_node("x", "Loose", Shape::Document).unwrap();
    fc.add_edge("s", "p", None, LineStyle::Solid, true).unwrap();
    fc.add_edge("p", "d", None, LineStyle::Solid, true).unwrap();
    fc.add_edge("d", "e", Some("yes".into()), LineStyle::Solid, true).unwrap();
    let n = number_steps(&fc);
    let want: Vec<(String, usize)> =
        vec![("p".into(), 1), ("d".into(), 2), ("x".into(), 3)];
    assert_eq!(n, want);
}

#[test]
fn stripped_html_has_no_brackets() {
    for s in ["<b>Bold</b> text", "a < b > c", "<<>>", "x<br/>y", "<i>unclosed"] {
        let out = strip_html(s);
        assert!(!out.contains('<') && !out.contains('>'), "{s:?} -> {out:?}");
    }
    assert_eq!(strip_html("a<br>b"), "a b");
}

#[test]
fn message_endpoints_become_participants() {
    let mut s = Sequence::new();
    s.add_message("u", "api", "GET", MessageKind::Sync).unwrap();
    s.add_message("api", "db", "SELECT", MessageKind::Async).unwrap();
    s.add_message("db", "db", "vacuum", MessageKind::Sync).unwrap();
    let ids: Vec<&str> = s.participants.iter().map(|p| p.id.as_str()).collect();
    assert_eq!(ids, vec!["u", "api", "db"]);
}

#[test]
fn store_reads_back_what_was_inserted() {
    let mut st = FlowchartStore::new();
    let mut doc = flowchart_mcp::engine::Document::new(Direction::LR);
    doc.pages[0].name = "Mine".into();
    let h = st.insert(doc);
    assert_eq!(st.get_mut(&h).unwrap().pages[0].name, "Mine");
    assert!(st.remove(&h));
    assert!(st.get_mut(&h).is_none());
}

#[test]
fn lanes_in_declaration_order() {
    let mut fc = Flowchart::new(Direction::LR);
    for id in ["a", "b", "c"] {
        fc.add_node(id, id, Shape::Rectangle).unwrap();
    }
    fc.add_subgraph("pool", "Pool", vec![], ContainerKind::Pool, None, None).unwrap();
    fc.add_subgraph("l2", "Two", vec!["b".into()], ContainerKind::Swimlane, None, Some("pool".into())).unwrap();
    fc.add_subgraph("g", "Group", vec!["c".into()], ContainerKind::Group, None, None).unwrap();
    fc.add_subgraph("l1", "One", vec!["a".into()], ContainerKind::Swimlane, None, Some("pool".into())).unwrap();
    assert_eq!(lane_ids(&fc), vec!["l2".to_string(), "l1".to_string()]);
    // Parents come before the containers nested in them; ties keep order.
    assert_eq!(ordered_containers(&fc), vec![0, 2, 1, 3]);
}

#[test]
fn themed_style_fills_defaults() {
    let t = themed_style(Shape::Stadium, Style::empty());
    assert_eq!(t.fill.as_deref(), Some("#1F6FB8"));
    assert_eq!(t.stroke.as_deref(), Some("#15527F"));
    assert_eq!(t.text_color.as_deref(), Some("#FFFFFF"));
    assert_eq!(t.font_size.map(|d| d.text), Some("13".to_string()));
    assert_eq!(t.bold, Some(true));

    let mut own = Style::empty();
    own.fill = Some("#ABCDEF".into());
    let t = themed_style(Shape::Diamond, own);
    assert_eq!(t.fill.as_deref(), Some("#ABCDEF"));
    assert_eq!(t.stroke.as_deref(), Some("#D6B656"));
    assert_eq!(t.bold, None);
}

#[test]
fn ranks_follow_longest_paths() {
    let mut fc = Flowchart::new(Direction::TB);
    for id in ["a", "b", "c", "d"] {
        fc.add_node(id, id, Shape::Rectangle).unwrap();
    }
    fc.add_edge("a", "b", None, LineStyle::Solid, true).unwrap();
    fc.add_edge("b", "c", None, LineStyle::Solid, true).unwrap();
    fc.add_edge("a", "c", None, LineStyle::Solid, true).unwrap();
    assert_eq!(flowchart_mcp::engine::rank::rank_nodes(&fc), vec![0, 1, 2, 0]);

    // A cycle keeps climbing for as many passes as there are nodes.
    let mut cyc = Flowchart::new(Direction::TB);
    cyc.add_node("a", "a", Shape::Rectangle).unwrap();
    cyc.add_node("b", "b", Shape::Rectangle).unwrap();
    cyc.add_edge("a", "b", None, LineStyle::Solid, true).unwrap();
    cyc.add_edge("b", "a", None, LineStyle::Solid, true).unwrap();
    assert_eq!(flowchart_mcp::engine::rank::rank_nodes(&cyc), vec![4, 3]);
}

#[test]
fn pdf_text_escapes_like_replace() {
    for s in ["plain", "a(b)c", "back\\slash", "((\\))", ""] {
        let want = s.replace('\\', "\\\\").replace('(', "\\(").replace(')', "\\)");
        assert_eq!(flowchart_mcp::text::pdf_text(s), want);
    }
}

#[test]
fn xml_escape_reads_back() {
    let s = r#"a<b & "c" 'd' > &amp;"#;
    let e = flowchart_mcp::text::xml_escape(s);
    assert_eq!(flowchart_mcp::text::xml_escape(r#"a<b & "c""#), "a&lt;b &amp; &quot;c&quot;");
    assert!(!e.contains('<') && !e.contains('>') && !e.contains('"') && !e.contains('\''));
    let back = e
        .replace("&lt;", "<")
        .replace("&gt;", ">")
        .replace("&quot;", "\"")
        .replace("&#39;", "'")
        .replace("&amp;", "&");
    assert_eq!(back, s);
}

#[test]
fn shape_names_parse_in_any_case() {
    assert_eq!(Shape::parse("DOUBLE-CIRCLE"), Some(Shape::DoubleCircle));
    assert_eq!(Shape::parse("Round Rect"), Some(Shape::RoundRect));
    assert_eq!(Shape::parse(Shape::TrapezoidAlt.label()), Some(Shape::TrapezoidAlt));
    assert_eq!(Shape::parse("UML-CLASS"), Some(Shape::UmlClass));
}
