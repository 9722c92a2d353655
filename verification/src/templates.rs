//! Built-in starter charts for `create_flowchart`'s `template` option.

use vstd::prelude::*;

use crate::engine::chart::string_views;
use crate::engine::{
    Arrow, ContainerKind, Direction, Document, Edge, EdgeRouting, Flowchart, LayoutKind, LineStyle,
    Node, Shape, Style, Subgraph,
};
use crate::text::{owned, str_eq};

verus! {

/// A node as plain values: id, label, shape and fill color.
pub type NodeView = (Seq<char>, Seq<char>, Shape, Option<Seq<char>>);

/// An edge as plain values: endpoints, label, line, arrow flag, start and
/// end arrowheads, routing.
pub type EdgeView = (
    Seq<char>,
    Seq<char>,
    Option<Seq<char>>,
    LineStyle,
    bool,
    Option<Arrow>,
    Option<Arrow>,
    Option<EdgeRouting>,
);

/// A container as plain values: id, label, member ids, kind, parent.
pub type SubgraphView = (Seq<char>, Seq<char>, Seq<Seq<char>>, ContainerKind, Option<Seq<char>>);

/// A template chart as plain values.
pub type TemplateView = (Direction, Seq<NodeView>, Seq<EdgeView>, Seq<SubgraphView>);

pub open spec fn opt_view(o: Option<String>) -> Option<Seq<char>> {
    match o {
        Some(s) => Some(s@),
        None => None,
    }
}

pub open spec fn node_view(n: Node) -> NodeView {
    (n.id@, n.label@, n.shape, opt_view(n.style.fill))
}

pub open spec fn edge_view(e: Edge) -> EdgeView {
    (e.from@, e.to@, opt_view(e.label), e.line, e.arrow, e.start_arrow, e.end_arrow, e.routing)
}

pub open spec fn subgraph_view(s: Subgraph) -> SubgraphView {
    (s.id@, s.label@, string_views(s.members@), s.kind, opt_view(s.parent))
}

/// The parts of a chart that templates set.
pub open spec fn chart_view(fc: Flowchart) -> TemplateView {
    (
        fc.direction,
        fc.nodes@.map_values(|n: Node| node_view(n)),
        fc.edges@.map_values(|e: Edge| edge_view(e)),
        fc.subgraphs@.map_values(|s: Subgraph| subgraph_view(s)),
    )
}

/// A node with nothing set beyond its view.
pub open spec fn plain_node(n: Node) -> bool {
    &&& n.style == Style { fill: n.style.fill, ..Style::empty_spec() }
    &&& n.image is None
    &&& n.stencil is None
    &&& n.pos is None
    &&& n.size is None
    &&& n.html is None
    &&& n.compartments@.len() == 0
    &&& n.layer is None
}

/// An edge with nothing set beyond its view.
pub open spec fn plain_edge(e: Edge) -> bool {
    &&& e.color is None
    &&& e.waypoints@.len() == 0
    &&& e.exit is None
    &&& e.entry is None
    &&& e.label_pos is None
    &&& e.label_offset is None
    &&& e.label_bg is None
    &&& e.label_border is None
}

/// Everything a chart view leaves out is unset.
pub open spec fn chart_extras_empty(fc: Flowchart) -> bool {
    &&& fc.title is None
    &&& fc.layout == LayoutKind::Layered
    &&& fc.layers@.len() == 0
    &&& !fc.number_steps
    &&& forall|i: int| 0 <= i < fc.nodes@.len() ==> plain_node(#[trigger] fc.nodes@[i])
    &&& forall|i: int| 0 <= i < fc.edges@.len() ==> plain_edge(#[trigger] fc.edges@[i])
    &&& forall|i: int| 0 <= i < fc.subgraphs@.len() ==> (#[trigger] fc.subgraphs@[i]).orientation is None
}

/// The `basic` template.
pub open spec fn basic_spec() -> TemplateView {
    (
        Direction::TB,
        seq![
        ("start"@, "Start"@, Shape::Stadium, None),
        ("process"@, "Process"@, Shape::Rectangle, None),
        ("end"@, "End"@, Shape::Stadium, None)
        ],
        seq![
        ("start"@, "process"@, None, LineStyle::Solid, true, None, None, None),
        ("process"@, "end"@, None, LineStyle::Solid, true, None, None, None)
        ],
        Seq::empty(),
    )
}

/// The `decision` template.
pub open spec fn decision_spec() -> TemplateView {
    (
        Direction::TB,
        seq![
        ("start"@, "Start"@, Shape::Stadium, None),
        ("check"@, "Condition?"@, Shape::Diamond, None),
        ("yes"@, "Do A"@, Shape::Rectangle, None),
        ("no"@, "Do B"@, Shape::Rectangle, None),
        ("end"@, "End"@, Shape::Stadium, None)
        ],
        seq![
        ("start"@, "check"@, None, LineStyle::Solid, true, None, None, None),
        ("check"@, "yes"@, Some("yes"@), LineStyle::Solid, true, None, None, None),
        ("check"@, "no"@, Some("no"@), LineStyle::Solid, true, None, None, None),
        ("yes"@, "end"@, None, LineStyle::Solid, true, None, None, None),
        ("no"@, "end"@, None, LineStyle::Solid, true, None, None, None)
        ],
        Seq::empty(),
    )
}

/// The `approval` template.
pub open spec fn approval_spec() -> TemplateView {
    (
        Direction::TB,
        seq![
        ("req"@, "Submit Request"@, Shape::Stadium, None),
        ("review"@, "Review"@, Shape::Diamond, None),
        ("approve"@, "Approve"@, Shape::Rectangle, None),
        ("reject"@, "Reject"@, Shape::Rectangle, None),
        ("notify"@, "Notify Requester"@, Shape::Parallelogram, None)
        ],
        seq![
        ("req"@, "review"@, None, LineStyle::Solid, true, None, None, None),
        ("review"@, "approve"@, Some("ok"@), LineStyle::Solid, true, None, None, None),
        ("review"@, "reject"@, Some("no"@), LineStyle::Solid, true, None, None, None),
        ("approve"@, "notify"@, None, LineStyle::Solid, true, None, None, None),
        ("reject"@, "notify"@, None, LineStyle::Solid, true, None, None, None)
        ],
        Seq::empty(),
    )
}

/// The `etl` template.
pub open spec fn etl_spec() -> TemplateView {
    (
        Direction::LR,
        seq![
        ("src"@, "Source"@, Shape::Cylinder, None),
        ("extract"@, "Extract"@, Shape::Rectangle, None),
        ("transform"@, "Transform"@, Shape::Rectangle, None),
        ("load"@, "Load"@, Shape::Rectangle, None),
        ("dw"@, "Warehouse"@, Shape::Cylinder, None)
        ],
        seq![
        ("src"@, "extract"@, None, LineStyle::Solid, true, None, None, None),
        ("extract"@, "transform"@, None, LineStyle::Solid, true, None, None, None),
        ("transform"@, "load"@, None, LineStyle::Solid, true, None, None, None),
        ("load"@, "dw"@, None, LineStyle::Solid, true, None, None, None)
        ],
        Seq::empty(),
    )
}

/// The `swimlane` template.
pub open spec fn swimlane_spec() -> TemplateView {
    (
        Direction::TB,
        seq![
        ("a1"@, "Submit"@, Shape::Stadium, None),
        ("a2"@, "Prepare"@, Shape::Rectangle, None),
        ("b1"@, "Review"@, Shape::Rectangle, None),
        ("b2"@, "Approve"@, Shape::Stadium, None)
        ],
        seq![
        ("a1"@, "a2"@, None, LineStyle::Solid, true, None, None, None),
        ("a2"@, "b1"@, None, LineStyle::Solid, true, None, None, None),
        ("b1"@, "b2"@, None, LineStyle::Solid, true, None, None, None)
        ],
        seq![
        ("pool"@, "Process"@, seq![], ContainerKind::Pool, None),
        ("customer"@, "Customer"@, seq!["a1"@, "a2"@], ContainerKind::Swimlane, Some("pool"@)),
        ("staff"@, "Staff"@, seq!["b1"@, "b2"@], ContainerKind::Swimlane, Some("pool"@))
        ],
    )
}

/// The `org_chart` template.
pub open spec fn org_chart_spec() -> TemplateView {
    (
        Direction::TB,
        seq![
        ("ceo"@, "CEO"@, Shape::Rectangle, None),
        ("cto"@, "CTO"@, Shape::Rectangle, None),
        ("cfo"@, "CFO"@, Shape::Rectangle, None),
        ("eng"@, "Engineering"@, Shape::Rectangle, None),
        ("ops"@, "Operations"@, Shape::Rectangle, None)
        ],
        seq![
        ("ceo"@, "cto"@, None, LineStyle::Solid, false, None, None, Some(EdgeRouting::Orthogonal)),
        ("ceo"@, "cfo"@, None, LineStyle::Solid, false, None, None, Some(EdgeRouting::Orthogonal)),
        ("cto"@, "eng"@, None, LineStyle::Solid, false, None, None, Some(EdgeRouting::Orthogonal)),
        ("cfo"@, "ops"@, None, LineStyle::Solid, false, None, None, Some(EdgeRouting::Orthogonal))
        ],
        Seq::empty(),
    )
}

/// The `mind_map` template.
pub open spec fn mind_map_spec() -> TemplateView {
    (
        Direction::LR,
        seq![
        ("root"@, "Idea"@, Shape::Circle, Some("#FFE6CC"@)),
        ("b1"@, "Topic A"@, Shape::RoundRect, None),
        ("b2"@, "Topic B"@, Shape::RoundRect, None),
        ("b3"@, "Topic C"@, Shape::RoundRect, None)
        ],
        seq![
        ("root"@, "b1"@, None, LineStyle::Solid, false, None, Some(Arrow::NoArrow), Some(EdgeRouting::Curved)),
        ("root"@, "b2"@, None, LineStyle::Solid, false, None, Some(Arrow::NoArrow), Some(EdgeRouting::Curved)),
        ("root"@, "b3"@, None, LineStyle::Solid, false, None, Some(Arrow::NoArrow), Some(EdgeRouting::Curved))
        ],
        Seq::empty(),
    )
}

/// The `uml_class` template.
pub open spec fn uml_class_spec() -> TemplateView {
    (
        Direction::TB,
        seq![
        ("animal"@, "Animal\n+name: String\n+eat(): void"@, Shape::Rectangle, None),
        ("dog"@, "Dog\n+bark(): void"@, Shape::Rectangle, None),
        ("owner"@, "Owner\n+name: String"@, Shape::Rectangle, None)
        ],
        seq![
        ("dog"@, "animal"@, None, LineStyle::Solid, false, None, Some(Arrow::Block), Some(EdgeRouting::Orthogonal)),
        ("owner"@, "dog"@, Some("owns"@), LineStyle::Solid, false, None, Some(Arrow::Open), Some(EdgeRouting::Orthogonal))
        ],
        Seq::empty(),
    )
}

/// The `erd` template.
pub open spec fn erd_spec() -> TemplateView {
    (
        Direction::LR,
        seq![
        ("customer"@, "Customer"@, Shape::Rectangle, Some("#DAE8FC"@)),
        ("order"@, "Order"@, Shape::Rectangle, Some("#DAE8FC"@)),
        ("product"@, "Product"@, Shape::Rectangle, Some("#DAE8FC"@))
        ],
        seq![
        ("customer"@, "order"@, Some("places"@), LineStyle::Solid, false, Some(Arrow::ErOne), Some(Arrow::ErMany), Some(EdgeRouting::EntityRelation)),
        ("order"@, "product"@, Some("contains"@), LineStyle::Solid, false, Some(Arrow::ErMany), Some(Arrow::ErMany), Some(EdgeRouting::EntityRelation))
        ],
        Seq::empty(),
    )
}

/// The `bpmn` template.
pub open spec fn bpmn_spec() -> TemplateView {
    (
        Direction::LR,
        seq![
        ("start"@, "Start"@, Shape::Circle, None),
        ("task1"@, "Receive Order"@, Shape::RoundRect, None),
        ("gw"@, "In stock?"@, Shape::Diamond, None),
        ("ship"@, "Ship"@, Shape::RoundRect, None),
        ("back"@, "Backorder"@, Shape::RoundRect, None),
        ("end"@, "End"@, Shape::DoubleCircle, None)
        ],
        seq![
        ("start"@, "task1"@, None, LineStyle::Solid, true, None, None, None),
        ("task1"@, "gw"@, None, LineStyle::Solid, true, None, None, None),
        ("gw"@, "ship"@, Some("yes"@), LineStyle::Solid, true, None, None, None),
        ("gw"@, "back"@, Some("no"@), LineStyle::Solid, true, None, None, None),
        ("ship"@, "end"@, None, LineStyle::Solid, true, None, None, None),
        ("back"@, "end"@, None, LineStyle::Solid, true, None, None, None)
        ],
        seq![
        ("pool"@, "Fulfillment"@, seq![], ContainerKind::Pool, None),
        ("lane"@, "Warehouse"@, seq!["start"@, "task1"@, "gw"@, "ship"@, "back"@, "end"@], ContainerKind::Swimlane, Some("pool"@))
        ],
    )
}

/// The `state_machine` template: initial and final states, transitions,
/// and a self-loop.
pub open spec fn state_machine_spec() -> TemplateView {
    (
        Direction::LR,
        seq![
        ("init"@, "Start"@, Shape::Circle, None),
        ("idle"@, "Idle"@, Shape::RoundRect, None),
        ("running"@, "Running"@, Shape::RoundRect, None),
        ("paused"@, "Paused"@, Shape::RoundRect, None),
        ("final"@, "End"@, Shape::DoubleCircle, None)
        ],
        seq![
        ("init"@, "idle"@, None, LineStyle::Solid, true, None, None, None),
        ("idle"@, "running"@, Some("start"@), LineStyle::Solid, true, None, None, None),
        ("running"@, "running"@, Some("tick"@), LineStyle::Solid, true, None, None, None),
        ("running"@, "paused"@, Some("pause"@), LineStyle::Solid, true, None, None, None),
        ("paused"@, "running"@, Some("resume"@), LineStyle::Solid, true, None, None, None),
        ("running"@, "final"@, Some("finish"@), LineStyle::Solid, true, None, None, None)
        ],
        Seq::empty(),
    )
}

/// Position of a template name in the catalog.
pub open spec fn template_index(id: Seq<char>) -> Option<int> {
    if id == "basic"@ {
        Some(0int)
    } else if id == "decision"@ {
        Some(1int)
    } else if id == "approval"@ {
        Some(2int)
    } else if id == "etl"@ {
        Some(3int)
    } else if id == "swimlane"@ {
        Some(4int)
    } else if id == "org_chart"@ {
        Some(5int)
    } else if id == "mind_map"@ {
        Some(6int)
    } else if id == "uml_class"@ {
        Some(7int)
    } else if id == "erd"@ {
        Some(8int)
    } else if id == "bpmn"@ {
        Some(9int)
    } else if id == "state_machine"@ {
        Some(10int)
    } else {
        None
    }
}

/// The chart of the template at catalog position `k`.
pub open spec fn template_view(k: int) -> TemplateView {
    if k == 0 {
        basic_spec()
    } else if k == 1 {
        decision_spec()
    } else if k == 2 {
        approval_spec()
    } else if k == 3 {
        etl_spec()
    } else if k == 4 {
        swimlane_spec()
    } else if k == 5 {
        org_chart_spec()
    } else if k == 6 {
        mind_map_spec()
    } else if k == 7 {
        uml_class_spec()
    } else if k == 8 {
        erd_spec()
    } else if k == 9 {
        bpmn_spec()
    } else if k == 10 {
        state_machine_spec()
    } else {
        (Direction::TB, Seq::empty(), Seq::empty(), Seq::empty())
    }
}

/// Template names and descriptions, in catalog order.
pub open spec fn catalog_spec() -> Seq<(Seq<char>, Seq<char>)> {
    seq![
        ("basic"@, "Start → Process → End (top-down)"@),
        ("decision"@, "Start → decision diamond with yes/no branches"@),
        ("approval"@, "Request → review decision → approve/reject paths"@),
        ("etl"@, "Extract → Transform → Load pipeline (left-right)"@),
        ("swimlane"@, "Two-lane pool with a handoff between lanes"@),
        ("org_chart"@, "Org hierarchy (CEO → VPs → teams)"@),
        ("mind_map"@, "Central idea with radiating branches"@),
        ("uml_class"@, "UML classes with inheritance + association arrows"@),
        ("erd"@, "Entity-relationship diagram with crow's-foot arrows"@),
        ("bpmn"@, "BPMN-style lanes with start/task/gateway/end"@),
        ("state_machine"@, "State machine: start/end states, transitions, a self-loop"@),
    ]
}

/// Template names and descriptions, for `list_templates`.
pub fn catalog() -> (r: Vec<(&'static str, &'static str)>)
    ensures
        r@.map_values(|p: (&'static str, &'static str)| (p.0@, p.1@)) == catalog_spec(),
{
    let v: Vec<(&'static str, &'static str)> = vec![
        ("basic", "Start → Process → End (top-down)"),
        ("decision", "Start → decision diamond with yes/no branches"),
        ("approval", "Request → review decision → approve/reject paths"),
        ("etl", "Extract → Transform → Load pipeline (left-right)"),
        ("swimlane", "Two-lane pool with a handoff between lanes"),
        ("org_chart", "Org hierarchy (CEO → VPs → teams)"),
        ("mind_map", "Central idea with radiating branches"),
        ("uml_class", "UML classes with inheritance + association arrows"),
        ("erd", "Entity-relationship diagram with crow's-foot arrows"),
        ("bpmn", "BPMN-style lanes with start/task/gateway/end"),
        ("state_machine", "State machine: start/end states, transitions, a self-loop")
    ];
    assert(v@.map_values(|p: (&'static str, &'static str)| (p.0@, p.1@)) =~= catalog_spec());
    v
}

fn tnode(id: &str, label: &str, shape: Shape, fill: Option<&str>) -> (n: Node)
    ensures
        node_view(n) == (id@, label@, shape, match fill {
            Some(f) => Some(f@),
            None => None,
        }),
        plain_node(n),
{
    let mut style = Style::empty();
    style.fill = match fill {
        Some(f) => Some(owned(f)),
        None => None,
    };
    Node {
        id: owned(id),
        label: owned(label),
        shape,
        style,
        image: None,
        stencil: None,
        pos: None,
        size: None,
        html: None,
        compartments: Vec::new(),
        layer: None,
    }
}

fn tedge(
    from: &str,
    to: &str,
    label: Option<&str>,
    line: LineStyle,
    arrow: bool,
    start_arrow: Option<Arrow>,
    end_arrow: Option<Arrow>,
    routing: Option<EdgeRouting>,
) -> (e: Edge)
    ensures
        edge_view(e) == (from@, to@, match label {
            Some(l) => Some(l@),
            None => None,
        }, line, arrow, start_arrow, end_arrow, routing),
        plain_edge(e),
{
    Edge {
        from: owned(from),
        to: owned(to),
        label: match label {
            Some(l) => Some(owned(l)),
            None => None,
        },
        line,
        arrow,
        end_arrow,
        start_arrow,
        routing,
        color: None,
        waypoints: Vec::new(),
        exit: None,
        entry: None,
        label_pos: None,
        label_offset: None,
        label_bg: None,
        label_border: None,
    }
}

fn tsub(id: &str, label: &str, members: Vec<String>, kind: ContainerKind, parent: Option<&str>) -> (s: Subgraph)
    ensures
        subgraph_view(s) == (id@, label@, string_views(members@), kind, match parent {
            Some(p) => Some(p@),
            None => None,
        }),
        s.orientation is None,
{
    Subgraph {
        id: owned(id),
        label: owned(label),
        members,
        kind,
        orientation: None,
        parent: match parent {
            Some(p) => Some(owned(p)),
            None => None,
        },
    }
}

fn assemble(direction: Direction, nodes: Vec<Node>, edges: Vec<Edge>, subgraphs: Vec<Subgraph>) -> (fc: Flowchart)
    requires
        forall|i: int| 0 <= i < nodes@.len() ==> plain_node(#[trigger] nodes@[i]),
        forall|i: int| 0 <= i < edges@.len() ==> plain_edge(#[trigger] edges@[i]),
        forall|i: int| 0 <= i < subgraphs@.len() ==> (#[trigger] subgraphs@[i]).orientation is None,
    ensures
        fc.direction == direction,
        fc.nodes == nodes,
        fc.edges == edges,
        fc.subgraphs == subgraphs,
        chart_extras_empty(fc),
{
    Flowchart {
        direction,
        title: None,
        nodes,
        edges,
        subgraphs,
        layout: LayoutKind::Layered,
        layers: Vec::new(),
        number_steps: false,
    }
}

fn basic() -> (fc: Flowchart)
    ensures
        chart_view(fc) == basic_spec(),
        chart_extras_empty(fc),
{
    let mut nodes: Vec<Node> = Vec::new();
    nodes.push(tnode("start", "Start", Shape::Stadium, None));
    nodes.push(tnode("process", "Process", Shape::Rectangle, None));
    nodes.push(tnode("end", "End", Shape::Stadium, None));
    let mut edges: Vec<Edge> = Vec::new();
    edges.push(tedge("start", "process", None, LineStyle::Solid, true, None, None, None));
    edges.push(tedge("process", "end", None, LineStyle::Solid, true, None, None, None));
    let mut subgraphs: Vec<Subgraph> = Vec::new();
    let fc = assemble(Direction::TB, nodes, edges, subgraphs);
    assert(chart_view(fc) =~~= basic_spec());
    fc
}

fn decision() -> (fc: Flowchart)
    ensures
        chart_view(fc) == decision_spec(),
        chart_extras_empty(fc),
{
    let mut nodes: Vec<Node> = Vec::new();
    nodes.push(tnode("start", "Start", Shape::Stadium, None));
    nodes.push(tnode("check", "Condition?", Shape::Diamond, None));
    nodes.push(tnode("yes", "Do A", Shape::Rectangle, None));
    nodes.push(tnode("no", "Do B", Shape::Rectangle, None));
    nodes.push(tnode("end", "End", Shape::Stadium, None));
    let mut edges: Vec<Edge> = Vec::new();
    edges.push(tedge("start", "check", None, LineStyle::Solid, true, None, None, None));
    edges.push(tedge("check", "yes", Some("yes"), LineStyle::Solid, true, None, None, None));
    edges.push(tedge("check", "no", Some("no"), LineStyle::Solid, true, None, None, None));
    edges.push(tedge("yes", "end", None, LineStyle::Solid, true, None, None, None));
    edges.push(tedge("no", "end", None, LineStyle::Solid, true, None, None, None));
    let mut subgraphs: Vec<Subgraph> = Vec::new();
    let fc = assemble(Direction::TB, nodes, edges, subgraphs);
    assert(chart_view(fc) =~~= decision_spec());
    fc
}

fn approval() -> (fc: Flowchart)
    ensures
        chart_view(fc) == approval_spec(),
        chart_extras_empty(fc),
{
    let mut nodes: Vec<Node> = Vec::new();
    nodes.push(tnode("req", "Submit Request", Shape::Stadium, None));
    nodes.push(tnode("review", "Review", Shape::Diamond, None));
    nodes.push(tnode("approve", "Approve", Shape::Rectangle, None));
    nodes.push(tnode("reject", "Reject", Shape::Rectangle, None));
    nodes.push(tnode("notify", "Notify Requester", Shape::Parallelogram, None));
    let mut edges: Vec<Edge> = Vec::new();
    edges.push(tedge("req", "review", None, LineStyle::Solid, true, None, None, None));
    edges.push(tedge("review", "approve", Some("ok"), LineStyle::Solid, true, None, None, None));
    edges.push(tedge("review", "reject", Some("no"), LineStyle::Solid, true, None, None, None));
    edges.push(tedge("approve", "notify", None, LineStyle::Solid, true, None, None, None));
    edges.push(tedge("reject", "notify", None, LineStyle::Solid, true, None, None, None));
    let mut subgraphs: Vec<Subgraph> = Vec::new();
    let fc = assemble(Direction::TB, nodes, edges, subgraphs);
    assert(chart_view(fc) =~~= approval_spec());
    fc
}

fn etl() -> (fc: Flowchart)
    ensures
        chart_view(fc) == etl_spec(),
        chart_extras_empty(fc),
{
    let mut nodes: Vec<Node> = Vec::new();
    nodes.push(tnode("src", "Source", Shape::Cylinder, None));
    nodes.push(tnode("extract", "Extract", Shape::Rectangle, None));
    nodes.push(tnode("transform", "Transform", Shape::Rectangle, None));
    nodes.push(tnode("load", "Load", Shape::Rectangle, None));
    nodes.push(tnode("dw", "Warehouse", Shape::Cylinder, None));
    let mut edges: Vec<Edge> = Vec::new();
    edges.push(tedge("src", "extract", None, LineStyle::Solid, true, None, None, None));
    edges.push(tedge("extract", "transform", None, LineStyle::Solid, true, None, None, None));
    edges.push(tedge("transform", "load", None, LineStyle::Solid, true, None, None, None));
    edges.push(tedge("load", "dw", None, LineStyle::Solid, true, None, None, None));
    let mut subgraphs: Vec<Subgraph> = Vec::new();
    let fc = assemble(Direction::LR, nodes, edges, subgraphs);
    assert(chart_view(fc) =~~= etl_spec());
    fc
}

fn swimlane() -> (fc: Flowchart)
    ensures
        chart_view(fc) == swimlane_spec(),
        chart_extras_empty(fc),
{
    let mut nodes: Vec<Node> = Vec::new();
    nodes.push(tnode("a1", "Submit", Shape::Stadium, None));
    nodes.push(tnode("a2", "Prepare", Shape::Rectangle, None));
    nodes.push(tnode("b1", "Review", Shape::Rectangle, None));
    nodes.push(tnode("b2", "Approve", Shape::Stadium, None));
    let mut edges: Vec<Edge> = Vec::new();
    edges.push(tedge("a1", "a2", None, LineStyle::Solid, true, None, None, None));
    edges.push(tedge("a2", "b1", None, LineStyle::Solid, true, None, None, None));
    edges.push(tedge("b1", "b2", None, LineStyle::Solid, true, None, None, None));
    let mut subgraphs: Vec<Subgraph> = Vec::new();
    let mut members: Vec<String> = Vec::new();
    subgraphs.push(tsub("pool", "Process", members, ContainerKind::Pool, None));
    let mut members: Vec<String> = Vec::new();
    members.push(owned("a1"));
    members.push(owned("a2"));
    subgraphs.push(tsub("customer", "Customer", members, ContainerKind::Swimlane, Some("pool")));
    let mut members: Vec<String> = Vec::new();
    members.push(owned("b1"));
    members.push(owned("b2"));
    subgraphs.push(tsub("staff", "Staff", members, ContainerKind::Swimlane, Some("pool")));
    let fc = assemble(Direction::TB, nodes, edges, subgraphs);
    assert(chart_view(fc) =~~= swimlane_spec());
    fc
}

fn org_chart() -> (fc: Flowchart)
    ensures
        chart_view(fc) == org_chart_spec(),
        chart_extras_empty(fc),
{
    let mut nodes: Vec<Node> = Vec::new();
    nodes.push(tnode("ceo", "CEO", Shape::Rectangle, None));
    nodes.push(tnode("cto", "CTO", Shape::Rectangle, None));
    nodes.push(tnode("cfo", "CFO", Shape::Rectangle, None));
    nodes.push(tnode("eng", "Engineering", Shape::Rectangle, None));
    nodes.push(tnode("ops", "Operations", Shape::Rectangle, None));
    let mut edges: Vec<Edge> = Vec::new();
    edges.push(tedge("ceo", "cto", None, LineStyle::Solid, false, None, None, Some(EdgeRouting::Orthogonal)));
    edges.push(tedge("ceo", "cfo", None, LineStyle::Solid, false, None, None, Some(EdgeRouting::Orthogonal)));
    edges.push(tedge("cto", "eng", None, LineStyle::Solid, false, None, None, Some(EdgeRouting::Orthogonal)));
    edges.push(tedge("cfo", "ops", None, LineStyle::Solid, false, None, None, Some(EdgeRouting::Orthogonal)));
    let mut subgraphs: Vec<Subgraph> = Vec::new();
    let fc = assemble(Direction::TB, nodes, edges, subgraphs);
    assert(chart_view(fc) =~~= org_chart_spec());
    fc
}

fn mind_map() -> (fc: Flowchart)
    ensures
        chart_view(fc) == mind_map_spec(),
        chart_extras_empty(fc),
{
    let mut nodes: Vec<Node> = Vec::new();
    nodes.push(tnode("root", "Idea", Shape::Circle, Some("#FFE6CC")));
    nodes.push(tnode("b1", "Topic A", Shape::RoundRect, None));
    nodes.push(tnode("b2", "Topic B", Shape::RoundRect, None));
    nodes.push(tnode("b3", "Topic C", Shape::RoundRect, None));
    let mut edges: Vec<Edge> = Vec::new();
    edges.push(tedge("root", "b1", None, LineStyle::Solid, false, None, Some(Arrow::NoArrow), Some(EdgeRouting::Curved)));
    edges.push(tedge("root", "b2", None, LineStyle::Solid, false, None, Some(Arrow::NoArrow), Some(EdgeRouting::Curved)));
    edges.push(tedge("root", "b3", None, LineStyle::Solid, false, None, Some(Arrow::NoArrow), Some(EdgeRouting::Curved)));
    let mut subgraphs: Vec<Subgraph> = Vec::new();
    let fc = assemble(Direction::LR, nodes, edges, subgraphs);
    assert(chart_view(fc) =~~= mind_map_spec());
    fc
}

fn uml_class() -> (fc: Flowchart)
    ensures
        chart_view(fc) == uml_class_spec(),
        chart_extras_empty(fc),
{
    let mut nodes: Vec<Node> = Vec::new();
    nodes.push(tnode("animal", "Animal\n+name: String\n+eat(): void", Shape::Rectangle, None));
    nodes.push(tnode("dog", "Dog\n+bark(): void", Shape::Rectangle, None));
    nodes.push(tnode("owner", "Owner\n+name: String", Shape::Rectangle, None));
    let mut edges: Vec<Edge> = Vec::new();
    edges.push(tedge("dog", "animal", None, LineStyle::Solid, false, None, Some(Arrow::Block), Some(EdgeRouting::Orthogonal)));
    edges.push(tedge("owner", "dog", Some("owns"), LineStyle::Solid, false, None, Some(Arrow::Open), Some(EdgeRouting::Orthogonal)));
    let mut subgraphs: Vec<Subgraph> = Vec::new();
    let fc = assemble(Direction::TB, nodes, edges, subgraphs);
    assert(chart_view(fc) =~~= uml_class_spec());
    fc
}

fn erd() -> (fc: Flowchart)
    ensures
        chart_view(fc) == erd_spec(),
        chart_extras_empty(fc),
{
    let mut nodes: Vec<Node> = Vec::new();
    nodes.push(tnode("customer", "Customer", Shape::Rectangle, Some("#DAE8FC")));
    nodes.push(tnode("order", "Order", Shape::Rectangle, Some("#DAE8FC")));
    nodes.push(tnode("product", "Product", Shape::Rectangle, Some("#DAE8FC")));
    let mut edges: Vec<Edge> = Vec::new();
    edges.push(tedge("customer", "order", Some("places"), LineStyle::Solid, false, Some(Arrow::ErOne), Some(Arrow::ErMany), Some(EdgeRouting::EntityRelation)));
    edges.push(tedge("order", "product", Some("contains"), LineStyle::Solid, false, Some(Arrow::ErMany), Some(Arrow::ErMany), Some(EdgeRouting::EntityRelation)));
    let mut subgraphs: Vec<Subgraph> = Vec::new();
    let fc = assemble(Direction::LR, nodes, edges, subgraphs);
    assert(chart_view(fc) =~~= erd_spec());
    fc
}

fn bpmn() -> (fc: Flowchart)
    ensures
        chart_view(fc) == bpmn_spec(),
        chart_extras_empty(fc),
{
    let mut nodes: Vec<Node> = Vec::new();
    nodes.push(tnode("start", "Start", Shape::Circle, None));
    nodes.push(tnode("task1", "Receive Order", Shape::RoundRect, None));
    nodes.push(tnode("gw", "In stock?", Shape::Diamond, None));
    nodes.push(tnode("ship", "Ship", Shape::RoundRect, None));
    nodes.push(tnode("back", "Backorder", Shape::RoundRect, None));
    nodes.push(tnode("end", "End", Shape::DoubleCircle, None));
    let mut edges: Vec<Edge> = Vec::new();
    edges.push(tedge("start", "task1", None, LineStyle::Solid, true, None, None, None));
    edges.push(tedge("task1", "gw", None, LineStyle::Solid, true, None, None, None));
    edges.push(tedge("gw", "ship", Some("yes"), LineStyle::Solid, true, None, None, None));
    edges.push(tedge("gw", "back", Some("no"), LineStyle::Solid, true, None, None, None));
    edges.push(tedge("ship", "end", None, LineStyle::Solid, true, None, None, None));
    edges.push(tedge("back", "end", None, LineStyle::Solid, true, None, None, None));
    let mut subgraphs: Vec<Subgraph> = Vec::new();
    let mut members: Vec<String> = Vec::new();
    subgraphs.push(tsub("pool", "Fulfillment", members, ContainerKind::Pool, None));
    let mut members: Vec<String> = Vec::new();
    members.push(owned("start"));
    members.push(owned("task1"));
    members.push(owned("gw"));
    members.push(owned("ship"));
    members.push(owned("back"));
    members.push(owned("end"));
    subgraphs.push(tsub("lane", "Warehouse", members, ContainerKind::Swimlane, Some("pool")));
    let fc = assemble(Direction::LR, nodes, edges, subgraphs);
    assert(chart_view(fc) =~~= bpmn_spec());
    fc
}

fn state_machine() -> (fc: Flowchart)
    ensures
        chart_view(fc) == state_machine_spec(),
        chart_extras_empty(fc),
{
    let mut nodes: Vec<Node> = Vec::new();
    nodes.push(tnode("init", "Start", Shape::Circle, None));
    nodes.push(tnode("idle", "Idle", Shape::RoundRect, None));
    nodes.push(tnode("running", "Running", Shape::RoundRect, None));
    nodes.push(tnode("paused", "Paused", Shape::RoundRect, None));
    nodes.push(tnode("final", "End", Shape::DoubleCircle, None));
    let mut edges: Vec<Edge> = Vec::new();
    edges.push(tedge("init", "idle", None, LineStyle::Solid, true, None, None, None));
    edges.push(tedge("idle", "running", Some("start"), LineStyle::Solid, true, None, None, None));
    edges.push(tedge("running", "running", Some("tick"), LineStyle::Solid, true, None, None, None));
    edges.push(tedge("running", "paused", Some("pause"), LineStyle::Solid, true, None, None, None));
    edges.push(tedge("paused", "running", Some("resume"), LineStyle::Solid, true, None, None, None));
    edges.push(tedge("running", "final", Some("finish"), LineStyle::Solid, true, None, None, None));
    let mut subgraphs: Vec<Subgraph> = Vec::new();
    let fc = assemble(Direction::LR, nodes, edges, subgraphs);
    assert(chart_view(fc) =~~= state_machine_spec());
    fc
}

/// Build a template by name; `None` for an unknown name. The document has
/// one page, `Page-1`, holding the template's chart.
pub fn build(id: &str) -> (r: Option<Document>)
    ensures
        match template_index(id@) {
            None => r is None,
            Some(k) => r matches Some(doc) && doc.wf() && doc.current == 0 && doc.pages@.len() == 1
                && doc.pages@[0].name@ == "Page-1"@ && chart_view(doc.pages@[0].chart)
                == template_view(k) && chart_extras_empty(doc.pages@[0].chart),
        },
{
    let fc = if str_eq(id, "basic") {
        basic()
    } else if str_eq(id, "decision") {
        decision()
    } else if str_eq(id, "approval") {
        approval()
    } else if str_eq(id, "etl") {
        etl()
    } else if str_eq(id, "swimlane") {
        swimlane()
    } else if str_eq(id, "org_chart") {
        org_chart()
    } else if str_eq(id, "mind_map") {
        mind_map()
    } else if str_eq(id, "uml_class") {
        uml_class()
    } else if str_eq(id, "erd") {
        erd()
    } else if str_eq(id, "bpmn") {
        bpmn()
    } else if str_eq(id, "state_machine") {
        state_machine()
    } else {
        return None;
    };
    let mut doc = Document::new(fc.direction);
    *doc.chart() = fc;
    Some(doc)
}

} // verus!
