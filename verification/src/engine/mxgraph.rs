//! One page of a draw.io (mxGraph) file. The auto-layout decides where
//! things go and writes every coordinate out as text ([`PageGeometry`]);
//! this module decides which cells exist, in which order, with which ids,
//! labels, styles, parents, step badges and label placements.

use vstd::prelude::*;

use super::chart::{ordered_containers, ordered_containers_spec};
use super::drawio::{
    container_style_spec, drawio_container_style, drawio_edge_style, drawio_lane_style,
    drawio_node_style, drawio_node_value, edge_style_spec, lane_style_spec, node_style_spec,
    node_value_spec,
};
use super::steps::{number_steps, numbered_views, step_numbers, Numbered};
use super::validate::{count_in, count_out, in_degree, out_degree};
use super::{
    find_layer, find_subgraph, first_index, layer_ids, subgraph_ids, Decimal, Edge, Flowchart,
    Layer, Node, Point,
};
use crate::text::{
    chars_of, decimal, ident, ident_spec, owned, push_decimal, push_str, xml_escape,
    xml_escape_spec,
};

verus! {

/// A box written out: x, y, width and height.
#[derive(Debug, Clone)]
pub struct Rect {
    pub x: String,
    pub y: String,
    pub w: String,
    pub h: String,
}

/// Where the layout put everything on one page, every number written out.
/// The per-container, per-node and per-edge lists follow the chart's own
/// order.
#[derive(Debug, Clone)]
pub struct PageGeometry {
    /// Left edge and width of the title banner.
    pub title_x: String,
    pub title_width: String,
    /// Swimlane bands: the lane's container id and its box.
    pub lanes: Vec<(String, Rect)>,
    /// Box of each container, when it has members to surround.
    pub containers: Vec<Option<Rect>>,
    /// Box of each node.
    pub nodes: Vec<Rect>,
    /// Box of each node's step badge.
    pub badges: Vec<Rect>,
    /// Computed exit and entry anchors of each edge (fractions of the box).
    pub exits: Vec<Option<(String, String)>>,
    pub entries: Vec<Option<(String, String)>>,
    /// Each edge's waypoints.
    pub waypoints: Vec<Vec<(String, String)>>,
    /// Canvas size.
    pub dx: String,
    pub dy: String,
}

/// The geometry has an entry for every container, node and edge.
pub open spec fn geometry_fits(fc: Flowchart, g: PageGeometry) -> bool {
    &&& g.containers@.len() == fc.subgraphs@.len()
    &&& g.nodes@.len() == fc.nodes@.len()
    &&& g.badges@.len() == fc.nodes@.len()
    &&& g.exits@.len() == fc.edges@.len()
    &&& g.entries@.len() == fc.edges@.len()
    &&& g.waypoints@.len() == fc.edges@.len()
    &&& forall|i: int|
        0 <= i < fc.edges@.len() ==> (#[trigger] g.waypoints@[i])@.len() == fc.edges@[i].waypoints@.len()
}

pub open spec fn rect_xml(r: Rect) -> Seq<char> {
    "<mxGeometry x=\""@ + r.x@ + "\" y=\""@ + r.y@ + "\" width=\""@ + r.w@ + "\" height=\""@ + r.h@
        + "\" as=\"geometry\"/>"@
}

/// A vertex cell.
pub open spec fn vertex_xml(id: Seq<char>, value: Seq<char>, style: Seq<char>, parent: Seq<char>, r: Rect) -> Seq<char> {
    "        <mxCell id=\""@ + id + "\" value=\""@ + value + "\" style=\""@ + style
        + "\" vertex=\"1\" parent=\""@ + parent + "\">\n          "@ + rect_xml(r)
        + "\n        </mxCell>\n"@
}

pub open spec fn cell_id(id: Seq<char>) -> Seq<char> {
    ident_spec(id, "n_"@)
}

/// The chart has a non-empty title.
pub open spec fn has_title(fc: Flowchart) -> bool {
    fc.title matches Some(t) && t@.len() > 0
}

pub open spec fn title_xml(fc: Flowchart, g: PageGeometry) -> Seq<char> {
    if has_title(fc) {
        "        <mxCell id=\"title\" value=\""@ + xml_escape_spec(fc.title->0@)
            + "\" style=\"text;html=1;strokeColor=none;fillColor=none;align=left;verticalAlign=middle;whiteSpace=wrap;fontSize=18;fontStyle=1;fontColor=#1F2A37;\" vertex=\"1\" parent=\"1\">\n          <mxGeometry x=\""@
            + g.title_x@ + "\" y=\"8\" width=\""@ + g.title_width@
            + "\" height=\"32\" as=\"geometry\"/>\n        </mxCell>\n"@
    } else {
        Seq::empty()
    }
}

/// The label of the first container with this id (empty when none).
pub open spec fn lane_label(fc: Flowchart, id: Seq<char>) -> Seq<char> {
    match first_index(subgraph_ids(fc.subgraphs@), id) {
        Some(i) => fc.subgraphs@[i].label@,
        None => Seq::empty(),
    }
}

pub open spec fn lane_xml(fc: Flowchart, lane: (String, Rect)) -> Seq<char> {
    vertex_xml(
        cell_id(lane.0@),
        xml_escape_spec(lane_label(fc, lane.0@)),
        lane_style_spec(fc.direction.is_vertical_spec()),
        "1"@,
        lane.1,
    )
}

pub open spec fn lanes_xml(fc: Flowchart, lanes: Seq<(String, Rect)>) -> Seq<char>
    decreases lanes.len(),
{
    if lanes.len() == 0 {
        Seq::empty()
    } else {
        lanes_xml(fc, lanes.drop_last()) + lane_xml(fc, lanes.last())
    }
}

/// The id names one of the lane bands.
pub open spec fn lane_listed(lanes: Seq<(String, Rect)>, id: Seq<char>) -> bool {
    exists|j: int| 0 <= j < lanes.len() && (#[trigger] lanes[j]).0@ == id
}

/// Container `i`, unless it is drawn as a lane band or has no box.
pub open spec fn container_xml(fc: Flowchart, g: PageGeometry, i: int) -> Seq<char> {
    let sg = fc.subgraphs@[i];
    if lane_listed(g.lanes@, sg.id@) {
        Seq::empty()
    } else {
        match g.containers@[i] {
            None => Seq::empty(),
            Some(b) => vertex_xml(cell_id(sg.id@), xml_escape_spec(sg.label@), container_style_spec(sg), "1"@, b),
        }
    }
}

pub open spec fn containers_xml(fc: Flowchart, g: PageGeometry, order: Seq<usize>) -> Seq<char>
    decreases order.len(),
{
    if order.len() == 0 {
        Seq::empty()
    } else {
        containers_xml(fc, g, order.drop_last()) + container_xml(fc, g, order.last() as int)
    }
}

/// A node sits on its layer when that layer exists, else on the default
/// layer `1`.
pub open spec fn node_parent(fc: Flowchart, n: Node) -> Seq<char> {
    match n.layer {
        Some(l) => if first_index(layer_ids(fc.layers@), l@) is Some {
            cell_id(l@)
        } else {
            "1"@
        },
        None => "1"@,
    }
}

/// The number given to `id`, if any.
pub open spec fn step_of(nums: Seq<Numbered>, id: Seq<char>) -> Option<int>
    decreases nums.len(),
{
    if nums.len() == 0 {
        None
    } else {
        match step_of(nums.drop_last(), id) {
            Some(k) => Some(k),
            None => if nums.last().0 == id {
                Some(nums.last().1)
            } else {
                None
            },
        }
    }
}

/// The step numbers shown on the page (none unless numbering is on).
pub open spec fn shown_steps(fc: Flowchart) -> Seq<Numbered> {
    if fc.number_steps {
        step_numbers(fc)
    } else {
        Seq::empty()
    }
}

pub open spec fn badge_xml(id: Seq<char>, k: int, b: Rect) -> Seq<char> {
    "        <mxCell id=\""@ + cell_id(id)
        + "_badge\" value=\""@ + decimal(k as nat)
        + "\" style=\"ellipse;whiteSpace=wrap;html=1;fillColor=#1F2A37;strokeColor=#FFFFFF;fontColor=#FFFFFF;fontStyle=1;fontSize=11;verticalAlign=middle;align=center;\" vertex=\"1\" parent=\"1\">\n          "@
        + rect_xml(b) + "\n        </mxCell>\n"@
}

/// Node `i` and, when it has a step number, its badge.
#[verifier::opaque]
pub open spec fn node_xml(fc: Flowchart, g: PageGeometry, i: int) -> Seq<char> {
    let n = fc.nodes@[i];
    vertex_xml(cell_id(n.id@), node_value_spec(n), node_style_spec(n), node_parent(fc, n), g.nodes@[i])
        + match step_of(shown_steps(fc), n.id@) {
        Some(k) => badge_xml(n.id@, k, g.badges@[i]),
        None => Seq::empty(),
    }
}

pub open spec fn nodes_xml(fc: Flowchart, g: PageGeometry, k: nat) -> Seq<char>
    decreases k,
{
    if k == 0 {
        Seq::empty()
    } else {
        nodes_xml(fc, g, (k - 1) as nat) + node_xml(fc, g, k - 1)
    }
}

/// `exitX=..;exitY=..;exitDx=0;exitDy=0;` (or the `entry` form).
pub open spec fn port_xml(kind: Seq<char>, x: Seq<char>, y: Seq<char>) -> Seq<char> {
    kind + "X="@ + x + ";"@ + kind + "Y="@ + y + ";"@ + kind + "Dx=0;"@ + kind + "Dy=0;"@
}

pub open spec fn anchor_xml(kind: Seq<char>, a: Option<(String, String)>) -> Seq<char> {
    match a {
        Some(p) => port_xml(kind, p.0@, p.1@),
        None => Seq::empty(),
    }
}

pub open spec fn fixed_xml(kind: Seq<char>, p: Option<Point>) -> Seq<char> {
    match p {
        Some(q) => port_xml(kind, q.x.text@, q.y.text@),
        None => Seq::empty(),
    }
}

pub open spec fn color_xml(key: Seq<char>, c: Option<String>) -> Seq<char> {
    match c {
        Some(v) => key + "="@ + v@ + ";"@,
        None => Seq::empty(),
    }
}

/// The full style of edge `i`: its own style, the computed anchors, the
/// fixed ports (which win, coming later) and the label colors.
pub open spec fn edge_full_style(fc: Flowchart, g: PageGeometry, i: int) -> Seq<char> {
    let e = fc.edges@[i];
    edge_style_spec(e) + anchor_xml("exit"@, g.exits@[i]) + anchor_xml("entry"@, g.entries@[i])
        + fixed_xml("exit"@, e.exit) + fixed_xml("entry"@, e.entry)
        + color_xml("labelBackgroundColor"@, e.label_bg) + color_xml("labelBorderColor"@, e.label_border)
}

pub open spec fn points_xml(pts: Seq<(String, String)>) -> Seq<char>
    decreases pts.len(),
{
    if pts.len() == 0 {
        Seq::empty()
    } else {
        points_xml(pts.drop_last()) + "<mxPoint x=\""@ + pts.last().0@ + "\" y=\""@ + pts.last().1@
            + "\"/>"@
    }
}

pub open spec fn waypoints_xml(pts: Seq<(String, String)>) -> Seq<char> {
    if pts.len() == 0 {
        Seq::empty()
    } else {
        "<Array as=\"points\">"@ + points_xml(pts) + "</Array>"@
    }
}

/// The edge has a non-empty label.
pub open spec fn has_label(e: Edge) -> bool {
    e.label matches Some(l) && l@.len() > 0
}

pub open spec fn num_or_zero(d: Option<Decimal>) -> Seq<char> {
    match d {
        Some(v) => v.text@,
        None => "0"@,
    }
}

/// Where edge `i`'s label goes: its own position and offset when set; else
/// along its waypoints; else, when several edges leave its source (or enter
/// its target), toward the end that tells them apart.
pub open spec fn edge_geometry(fc: Flowchart, g: PageGeometry, i: int) -> Seq<char> {
    let e = fc.edges@[i];
    let wp = waypoints_xml(g.waypoints@[i]@);
    if e.label_pos is Some || e.label_offset is Some {
        "<mxGeometry x=\""@ + num_or_zero(e.label_pos) + "\" relative=\"1\" as=\"geometry\"><mxPoint y=\""@
            + num_or_zero(e.label_offset) + "\" as=\"offset\"/></mxGeometry>"@
    } else if g.waypoints@[i]@.len() > 0 {
        "<mxGeometry relative=\"1\" as=\"geometry\">"@ + wp + "</mxGeometry>"@
    } else if has_label(e) && out_degree(fc.edges@, e.from@) >= 2 {
        "<mxGeometry x=\"-0.5\" relative=\"1\" as=\"geometry\"><mxPoint as=\"offset\"/></mxGeometry>"@
    } else if has_label(e) && in_degree(fc.edges@, e.to@) >= 2 {
        "<mxGeometry x=\"0.5\" relative=\"1\" as=\"geometry\"><mxPoint as=\"offset\"/></mxGeometry>"@
    } else {
        "<mxGeometry relative=\"1\" as=\"geometry\"/>"@
    }
}

pub open spec fn edge_label_text(e: Edge) -> Seq<char> {
    match e.label {
        Some(l) => l@,
        None => Seq::empty(),
    }
}

#[verifier::opaque]
pub open spec fn edge_xml(fc: Flowchart, g: PageGeometry, i: int) -> Seq<char> {
    let e = fc.edges@[i];
    "        <mxCell id=\"edge"@ + decimal(i as nat) + "\" value=\""@ + xml_escape_spec(edge_label_text(e))
        + "\" style=\""@ + edge_full_style(fc, g, i) + "\" edge=\"1\" parent=\"1\" source=\""@
        + cell_id(e.from@) + "\" target=\""@ + cell_id(e.to@) + "\">\n          "@
        + edge_geometry(fc, g, i) + "\n        </mxCell>\n"@
}

pub open spec fn edges_xml(fc: Flowchart, g: PageGeometry, k: nat) -> Seq<char>
    decreases k,
{
    if k == 0 {
        Seq::empty()
    } else {
        edges_xml(fc, g, (k - 1) as nat) + edge_xml(fc, g, k - 1)
    }
}

pub open spec fn layer_xml(l: Layer) -> Seq<char> {
    "        <mxCell id=\""@ + cell_id(l.id@) + "\" value=\""@ + xml_escape_spec(l.label@) + "\" style=\"\""@
        + (if l.visible {
        Seq::empty()
    } else {
        " visible=\"0\""@
    }) + " parent=\"0\"/>\n"@
}

pub open spec fn layers_xml(layers: Seq<Layer>) -> Seq<char>
    decreases layers.len(),
{
    if layers.len() == 0 {
        Seq::empty()
    } else {
        layers_xml(layers.drop_last()) + layer_xml(layers.last())
    }
}

/// All cells of the page, in drawing order: title, lane bands, containers
/// (parents first), nodes with their badges, then edges.
pub open spec fn cells_xml(fc: Flowchart, g: PageGeometry) -> Seq<char> {
    title_xml(fc, g) + lanes_xml(fc, g.lanes@) + containers_xml(
        fc,
        g,
        ordered_containers_spec(fc.subgraphs@),
    ) + nodes_xml(fc, g, fc.nodes@.len()) + edges_xml(fc, g, fc.edges@.len())
}

/// The `<diagram>` element of one page.
pub open spec fn page_xml(name: Seq<char>, fc: Flowchart, g: PageGeometry) -> Seq<char> {
    "  <diagram id=\""@ + cell_id(name) + "\" name=\""@ + xml_escape_spec(name) + "\">\n    <mxGraphModel dx=\""@
        + g.dx@ + "\" dy=\""@ + g.dy@
        + "\" grid=\"1\" gridSize=\"10\" guides=\"1\" tooltips=\"1\" connect=\"1\" arrows=\"1\" fold=\"1\" page=\"1\" pageScale=\"1\" math=\"0\" shadow=\"0\">\n      <root>\n        <mxCell id=\"0\"/>\n        <mxCell id=\"1\" parent=\"0\"/>\n"@
        + layers_xml(fc.layers@) + cells_xml(fc, g) + "      </root>\n    </mxGraphModel>\n  </diagram>\n"@
}


fn push_rect(out: &mut String, r: &Rect)
    ensures
        final(out)@ == old(out)@ + rect_xml(*r),
{
    push_str(out, "<mxGeometry x=\"");
    push_str(out, r.x.as_str());
    push_str(out, "\" y=\"");
    push_str(out, r.y.as_str());
    push_str(out, "\" width=\"");
    push_str(out, r.w.as_str());
    push_str(out, "\" height=\"");
    push_str(out, r.h.as_str());
    push_str(out, "\" as=\"geometry\"/>");
    assert(out@ =~= old(out)@ + rect_xml(*r));
}

fn push_vertex(out: &mut String, id: &str, value: &str, style: &str, parent: &str, r: &Rect)
    ensures
        final(out)@ == old(out)@ + vertex_xml(id@, value@, style@, parent@, *r),
{
    push_str(out, "        <mxCell id=\"");
    push_str(out, id);
    push_str(out, "\" value=\"");
    push_str(out, value);
    push_str(out, "\" style=\"");
    push_str(out, style);
    push_str(out, "\" vertex=\"1\" parent=\"");
    push_str(out, parent);
    push_str(out, "\">\n          ");
    let ghost mid = out@;
    push_rect(out, r);
    push_str(out, "\n        </mxCell>\n");
    assert(out@ =~= old(out)@ + vertex_xml(id@, value@, style@, parent@, *r));
}

fn push_title(out: &mut String, fc: &Flowchart, g: &PageGeometry)
    ensures
        final(out)@ == old(out)@ + title_xml(*fc, *g),
{
    if let Some(t) = &fc.title {
        let tv = chars_of(t.as_str());
        if tv.len() > 0 {
            push_str(
                out,
                "        <mxCell id=\"title\" value=\"",
            );
            push_str(out, xml_escape(t.as_str()).as_str());
            push_str(
                out,
                "\" style=\"text;html=1;strokeColor=none;fillColor=none;align=left;verticalAlign=middle;whiteSpace=wrap;fontSize=18;fontStyle=1;fontColor=#1F2A37;\" vertex=\"1\" parent=\"1\">\n          <mxGeometry x=\"",
            );
            push_str(out, g.title_x.as_str());
            push_str(out, "\" y=\"8\" width=\"");
            push_str(out, g.title_width.as_str());
            push_str(out, "\" height=\"32\" as=\"geometry\"/>\n        </mxCell>\n");
            assert(out@ =~= old(out)@ + title_xml(*fc, *g));
        }
    }
}

fn lane_label_of(fc: &Flowchart, id: &str) -> (r: String)
    ensures
        r@ == lane_label(*fc, id@),
{
    match find_subgraph(&fc.subgraphs, id) {
        Some(i) => crate::text::copy_string(&fc.subgraphs[i].label),
        None => String::new(),
    }
}

fn push_lanes(out: &mut String, fc: &Flowchart, g: &PageGeometry)
    ensures
        final(out)@ == old(out)@ + lanes_xml(*fc, g.lanes@),
{
    let style = drawio_lane_style(fc.direction.is_vertical());
    let mut k: usize = 0;
    while k < g.lanes.len()
        invariant
            k <= g.lanes@.len(),
            style@ == lane_style_spec(fc.direction.is_vertical_spec()),
            out@ == old(out)@ + lanes_xml(*fc, g.lanes@.take(k as int)),
        decreases g.lanes.len() - k,
    {
        let (id, b) = (&g.lanes[k].0, &g.lanes[k].1);
        let cid = ident(id.as_str(), "n_");
        let label = xml_escape(lane_label_of(fc, id.as_str()).as_str());
        push_vertex(out, cid.as_str(), label.as_str(), style.as_str(), "1", b);
        assert(g.lanes@.take(k + 1).drop_last() =~= g.lanes@.take(k as int));
        assert(out@ =~= old(out)@ + lanes_xml(*fc, g.lanes@.take(k + 1)));
        k += 1;
    }
    assert(g.lanes@.take(g.lanes.len() as int) =~= g.lanes@);
}

fn is_lane(lanes: &Vec<(String, Rect)>, id: &str) -> (r: bool)
    ensures
        r == lane_listed(lanes@, id@),
{
    let mut j: usize = 0;
    while j < lanes.len()
        invariant
            j <= lanes@.len(),
            forall|q: int| 0 <= q < j ==> (#[trigger] lanes@[q]).0@ != id@,
        decreases lanes.len() - j,
    {
        if crate::text::str_eq(lanes[j].0.as_str(), id) {
            assert(lanes@[j as int].0@ == id@);
            return true;
        }
        j += 1;
    }
    false
}

fn push_container(out: &mut String, fc: &Flowchart, g: &PageGeometry, i: usize)
    requires
        geometry_fits(*fc, *g),
        i < fc.subgraphs@.len(),
    ensures
        final(out)@ == old(out)@ + container_xml(*fc, *g, i as int),
{
    let sg = &fc.subgraphs[i];
    if is_lane(&g.lanes, sg.id.as_str()) {
        return;
    }
    match &g.containers[i] {
        None => {},
        Some(b) => {
            let cid = ident(sg.id.as_str(), "n_");
            let label = xml_escape(sg.label.as_str());
            let style = drawio_container_style(sg);
            push_vertex(out, cid.as_str(), label.as_str(), style.as_str(), "1", b);
        },
    }
}

#[verifier::spinoff_prover]
#[verifier::rlimit(30)]
fn push_containers(out: &mut String, fc: &Flowchart, g: &PageGeometry)
    requires
        geometry_fits(*fc, *g),
    ensures
        final(out)@ == old(out)@ + containers_xml(*fc, *g, ordered_containers_spec(fc.subgraphs@)),
{
    let order = ordered_containers(fc);
    proof {
        super::chart::lemma_ordered_in_range(fc.subgraphs@);
    }
    let mut k: usize = 0;
    while k < order.len()
        invariant
            geometry_fits(*fc, *g),
            order@ == ordered_containers_spec(fc.subgraphs@),
            forall|q: int| 0 <= q < order@.len() ==> (#[trigger] order@[q]) < fc.subgraphs@.len(),
            k <= order@.len(),
            out@ == old(out)@ + containers_xml(*fc, *g, order@.take(k as int)),
        decreases order.len() - k,
    {
        let i = order[k];
        let ghost before = out@;
        push_container(out, fc, g, i);
        proof {
            let t = order@.take(k + 1);
            assert(t.drop_last() =~= order@.take(k as int));
            assert(t.last() == i);
            assert(containers_xml(*fc, *g, t) == containers_xml(*fc, *g, t.drop_last()) + container_xml(
                *fc,
                *g,
                i as int,
            ));
            assert(out@ =~= old(out)@ + containers_xml(*fc, *g, t));
        }
        k += 1;
    }
    assert(order@.take(order.len() as int) =~= order@);
}


proof fn lemma_step_of_extend(s: Seq<Numbered>, k: int, id: Seq<char>)
    requires
        0 <= k <= s.len(),
        step_of(s.take(k), id) is Some,
    ensures
        step_of(s, id) == step_of(s.take(k), id),
    decreases s.len(),
{
    if k == s.len() {
        assert(s.take(k) =~= s);
    } else {
        assert(s.drop_last().take(k) =~= s.take(k));
        lemma_step_of_extend(s.drop_last(), k, id);
    }
}

fn find_step(nums: &Vec<(String, usize)>, id: &str) -> (r: Option<usize>)
    ensures
        match step_of(numbered_views(nums@), id@) {
            Some(k) => r == Some(k as usize) && k >= 0 && k <= usize::MAX,
            None => r is None,
        },
{
    let ghost v = numbered_views(nums@);
    let mut j: usize = 0;
    while j < nums.len()
        invariant
            j <= nums@.len(),
            v == numbered_views(nums@),
            step_of(v.take(j as int), id@) is None,
        decreases nums.len() - j,
    {
        assert(v.take(j + 1).drop_last() =~= v.take(j as int));
        assert(v[j as int] == (nums@[j as int].0@, nums@[j as int].1 as int));
        if crate::text::str_eq(nums[j].0.as_str(), id) {
            proof {
                assert(step_of(v.take(j + 1), id@) == Some(nums@[j as int].1 as int));
                lemma_step_of_extend(v, j + 1, id@);
            }
            return Some(nums[j].1);
        }
        j += 1;
    }
    assert(v.take(nums.len() as int) =~= v);
    None
}

fn node_parent_of(fc: &Flowchart, n: &Node) -> (r: String)
    ensures
        r@ == node_parent(*fc, *n),
{
    match &n.layer {
        Some(l) => if find_layer(&fc.layers, l.as_str()).is_some() {
            ident(l.as_str(), "n_")
        } else {
            owned("1")
        },
        None => owned("1"),
    }
}

fn push_badge(out: &mut String, id: &str, k: usize, b: &Rect)
    ensures
        final(out)@ == old(out)@ + badge_xml(id@, k as int, *b),
{
    push_str(out, "        <mxCell id=\"");
    push_str(out, ident(id, "n_").as_str());
    push_str(out, "_badge\" value=\"");
    push_decimal(out, k);
    push_str(
        out,
        "\" style=\"ellipse;whiteSpace=wrap;html=1;fillColor=#1F2A37;strokeColor=#FFFFFF;fontColor=#FFFFFF;fontStyle=1;fontSize=11;verticalAlign=middle;align=center;\" vertex=\"1\" parent=\"1\">\n          ",
    );
    push_rect(out, b);
    push_str(out, "\n        </mxCell>\n");
    assert(out@ =~= old(out)@ + badge_xml(id@, k as int, *b));
}

fn push_node(out: &mut String, fc: &Flowchart, g: &PageGeometry, nums: &Vec<(String, usize)>, i: usize)
    requires
        geometry_fits(*fc, *g),
        i < fc.nodes@.len(),
        numbered_views(nums@) == shown_steps(*fc),
    ensures
        final(out)@ == old(out)@ + node_xml(*fc, *g, i as int),
{
    let n = &fc.nodes[i];
    let cid = ident(n.id.as_str(), "n_");
    let value = drawio_node_value(n);
    let style = drawio_node_style(n);
    let parent = node_parent_of(fc, n);
    push_vertex(out, cid.as_str(), value.as_str(), style.as_str(), parent.as_str(), &g.nodes[i]);
    let ghost mid = out@;
    proof {
        reveal(node_xml);
    }
    match find_step(nums, n.id.as_str()) {
        Some(k) => {
            push_badge(out, n.id.as_str(), k, &g.badges[i]);
        },
        None => {},
    }
    assert(out@ =~= old(out)@ + node_xml(*fc, *g, i as int));
}

fn push_nodes(out: &mut String, fc: &Flowchart, g: &PageGeometry, nums: &Vec<(String, usize)>)
    requires
        geometry_fits(*fc, *g),
        numbered_views(nums@) == shown_steps(*fc),
    ensures
        final(out)@ == old(out)@ + nodes_xml(*fc, *g, fc.nodes@.len()),
{
    let mut i: usize = 0;
    while i < fc.nodes.len()
        invariant
            geometry_fits(*fc, *g),
            numbered_views(nums@) == shown_steps(*fc),
            i <= fc.nodes@.len(),
            out@ == old(out)@ + nodes_xml(*fc, *g, i as nat),
        decreases fc.nodes.len() - i,
    {
        push_node(out, fc, g, nums, i);
        assert(nodes_xml(*fc, *g, (i + 1) as nat) == nodes_xml(*fc, *g, i as nat) + node_xml(*fc, *g, i as int));
        assert(out@ =~= old(out)@ + nodes_xml(*fc, *g, (i + 1) as nat));
        i += 1;
    }
}


fn push_port(out: &mut String, kind: &str, x: &str, y: &str)
    ensures
        final(out)@ == old(out)@ + port_xml(kind@, x@, y@),
{
    push_str(out, kind);
    push_str(out, "X=");
    push_str(out, x);
    push_str(out, ";");
    push_str(out, kind);
    push_str(out, "Y=");
    push_str(out, y);
    push_str(out, ";");
    push_str(out, kind);
    push_str(out, "Dx=0;");
    push_str(out, kind);
    push_str(out, "Dy=0;");
    assert(out@ =~= old(out)@ + port_xml(kind@, x@, y@));
}

fn push_anchor(out: &mut String, kind: &str, a: &Option<(String, String)>)
    ensures
        final(out)@ == old(out)@ + anchor_xml(kind@, *a),
{
    match a {
        Some(p) => push_port(out, kind, p.0.as_str(), p.1.as_str()),
        None => {},
    }
}

fn push_fixed(out: &mut String, kind: &str, p: &Option<Point>)
    ensures
        final(out)@ == old(out)@ + fixed_xml(kind@, *p),
{
    match p {
        Some(q) => push_port(out, kind, q.x.text.as_str(), q.y.text.as_str()),
        None => {},
    }
}

fn push_color(out: &mut String, key: &str, c: &Option<String>)
    ensures
        final(out)@ == old(out)@ + color_xml(key@, *c),
{
    match c {
        Some(v) => {
            push_str(out, key);
            push_str(out, "=");
            push_str(out, v.as_str());
            push_str(out, ";");
            assert(out@ =~= old(out)@ + color_xml(key@, *c));
        },
        None => {},
    }
}

fn full_style(fc: &Flowchart, g: &PageGeometry, i: usize) -> (r: String)
    requires
        geometry_fits(*fc, *g),
        i < fc.edges@.len(),
    ensures
        r@ == edge_full_style(*fc, *g, i as int),
{
    let e = &fc.edges[i];
    let mut st = drawio_edge_style(e);
    push_anchor(&mut st, "exit", &g.exits[i]);
    push_anchor(&mut st, "entry", &g.entries[i]);
    push_fixed(&mut st, "exit", &e.exit);
    push_fixed(&mut st, "entry", &e.entry);
    push_color(&mut st, "labelBackgroundColor", &e.label_bg);
    push_color(&mut st, "labelBorderColor", &e.label_border);
    st
}

fn push_points(out: &mut String, pts: &Vec<(String, String)>)
    ensures
        final(out)@ == old(out)@ + points_xml(pts@),
{
    let mut k: usize = 0;
    while k < pts.len()
        invariant
            k <= pts@.len(),
            out@ == old(out)@ + points_xml(pts@.take(k as int)),
        decreases pts.len() - k,
    {
        push_str(out, "<mxPoint x=\"");
        push_str(out, pts[k].0.as_str());
        push_str(out, "\" y=\"");
        push_str(out, pts[k].1.as_str());
        push_str(out, "\"/>");
        assert(pts@.take(k + 1).drop_last() =~= pts@.take(k as int));
        assert(out@ =~= old(out)@ + points_xml(pts@.take(k + 1)));
        k += 1;
    }
    assert(pts@.take(pts.len() as int) =~= pts@);
}

fn push_num_or_zero(out: &mut String, d: &Option<Decimal>)
    ensures
        final(out)@ == old(out)@ + num_or_zero(*d),
{
    match d {
        Some(v) => push_str(out, v.text.as_str()),
        None => push_str(out, "0"),
    }
}

fn geometry_of(fc: &Flowchart, g: &PageGeometry, i: usize) -> (r: String)
    requires
        geometry_fits(*fc, *g),
        i < fc.edges@.len(),
    ensures
        r@ == edge_geometry(*fc, *g, i as int),
{
    let e = &fc.edges[i];
    let mut s = String::new();
    if e.label_pos.is_some() || e.label_offset.is_some() {
        push_str(&mut s, "<mxGeometry x=\"");
        push_num_or_zero(&mut s, &e.label_pos);
        push_str(&mut s, "\" relative=\"1\" as=\"geometry\"><mxPoint y=\"");
        push_num_or_zero(&mut s, &e.label_offset);
        push_str(&mut s, "\" as=\"offset\"/></mxGeometry>");
        assert(s@ =~= edge_geometry(*fc, *g, i as int));
        return s;
    }
    let wps = &g.waypoints[i];
    if wps.len() > 0 {
        push_str(&mut s, "<mxGeometry relative=\"1\" as=\"geometry\">");
        push_str(&mut s, "<Array as=\"points\">");
        push_points(&mut s, wps);
        push_str(&mut s, "</Array>");
        push_str(&mut s, "</mxGeometry>");
        assert(s@ =~= edge_geometry(*fc, *g, i as int));
        return s;
    }
    let labeled = match &e.label {
        Some(l) => chars_of(l.as_str()).len() > 0,
        None => false,
    };
    if labeled && count_out(&fc.edges, e.from.as_str()).0 >= 2 {
        return owned("<mxGeometry x=\"-0.5\" relative=\"1\" as=\"geometry\"><mxPoint as=\"offset\"/></mxGeometry>");
    }
    if labeled && count_in(&fc.edges, e.to.as_str()) >= 2 {
        return owned("<mxGeometry x=\"0.5\" relative=\"1\" as=\"geometry\"><mxPoint as=\"offset\"/></mxGeometry>");
    }
    owned("<mxGeometry relative=\"1\" as=\"geometry\"/>")
}

#[verifier::spinoff_prover]
#[verifier::rlimit(30)]
fn push_edge(out: &mut String, fc: &Flowchart, g: &PageGeometry, i: usize)
    requires
        geometry_fits(*fc, *g),
        i < fc.edges@.len(),
    ensures
        final(out)@ == old(out)@ + edge_xml(*fc, *g, i as int),
{
    let e = &fc.edges[i];
    let label = match &e.label {
        Some(l) => xml_escape(l.as_str()),
        None => xml_escape(""),
    };
    proof {
        reveal_strlit("");
        assert(""@ =~= Seq::<char>::empty());
    }
    let style = full_style(fc, g, i);
    let geom = geometry_of(fc, g, i);
    push_str(out, "        <mxCell id=\"edge");
    push_decimal(out, i);
    push_str(out, "\" value=\"");
    push_str(out, label.as_str());
    push_str(out, "\" style=\"");
    push_str(out, style.as_str());
    push_str(out, "\" edge=\"1\" parent=\"1\" source=\"");
    push_str(out, ident(e.from.as_str(), "n_").as_str());
    push_str(out, "\" target=\"");
    push_str(out, ident(e.to.as_str(), "n_").as_str());
    push_str(out, "\">\n          ");
    push_str(out, geom.as_str());
    push_str(out, "\n        </mxCell>\n");
    proof {
        reveal(edge_xml);
    }
    assert(out@ =~= old(out)@ + edge_xml(*fc, *g, i as int));
}

fn push_edges(out: &mut String, fc: &Flowchart, g: &PageGeometry)
    requires
        geometry_fits(*fc, *g),
    ensures
        final(out)@ == old(out)@ + edges_xml(*fc, *g, fc.edges@.len()),
{
    let mut i: usize = 0;
    while i < fc.edges.len()
        invariant
            geometry_fits(*fc, *g),
            i <= fc.edges@.len(),
            out@ == old(out)@ + edges_xml(*fc, *g, i as nat),
        decreases fc.edges.len() - i,
    {
        push_edge(out, fc, g, i);
        assert(edges_xml(*fc, *g, (i + 1) as nat) == edges_xml(*fc, *g, i as nat) + edge_xml(*fc, *g, i as int));
        assert(out@ =~= old(out)@ + edges_xml(*fc, *g, (i + 1) as nat));
        i += 1;
    }
}

fn push_layers(out: &mut String, layers: &Vec<Layer>)
    ensures
        final(out)@ == old(out)@ + layers_xml(layers@),
{
    let mut k: usize = 0;
    while k < layers.len()
        invariant
            k <= layers@.len(),
            out@ == old(out)@ + layers_xml(layers@.take(k as int)),
        decreases layers.len() - k,
    {
        let l = &layers[k];
        let ghost before = out@;
        push_str(out, "        <mxCell id=\"");
        push_str(out, ident(l.id.as_str(), "n_").as_str());
        push_str(out, "\" value=\"");
        push_str(out, xml_escape(l.label.as_str()).as_str());
        push_str(out, "\" style=\"\"");
        if !l.visible {
            push_str(out, " visible=\"0\"");
        }
        push_str(out, " parent=\"0\"/>\n");
        proof {
            if l.visible {
                assert(out@ =~= before + layer_xml(*l));
            } else {
                assert(out@ =~= before + layer_xml(*l));
            }
        }
        assert(layers@.take(k + 1).drop_last() =~= layers@.take(k as int));
        assert(out@ =~= old(out)@ + layers_xml(layers@.take(k + 1)));
        k += 1;
    }
    assert(layers@.take(layers.len() as int) =~= layers@);
}

/// One page as a `<diagram>` element (see [`page_xml`]).
pub fn drawio_page(name: &str, fc: &Flowchart, g: &PageGeometry) -> (r: String)
    requires
        geometry_fits(*fc, *g),
        2 * fc.nodes@.len() + fc.edges@.len() <= usize::MAX,
    ensures
        r@ == page_xml(name@, *fc, *g),
{
    let nums: Vec<(String, usize)> = if fc.number_steps {
        number_steps(fc)
    } else {
        Vec::new()
    };
    assert(numbered_views(nums@) =~= shown_steps(*fc));
    let mut out = String::new();
    push_str(&mut out, "  <diagram id=\"");
    push_str(&mut out, ident(name, "n_").as_str());
    push_str(&mut out, "\" name=\"");
    push_str(&mut out, xml_escape(name).as_str());
    push_str(&mut out, "\">\n    <mxGraphModel dx=\"");
    push_str(&mut out, g.dx.as_str());
    push_str(&mut out, "\" dy=\"");
    push_str(&mut out, g.dy.as_str());
    push_str(
        &mut out,
        "\" grid=\"1\" gridSize=\"10\" guides=\"1\" tooltips=\"1\" connect=\"1\" arrows=\"1\" fold=\"1\" page=\"1\" pageScale=\"1\" math=\"0\" shadow=\"0\">\n      <root>\n        <mxCell id=\"0\"/>\n        <mxCell id=\"1\" parent=\"0\"/>\n",
    );
    let ghost head = out@;
    push_layers(&mut out, &fc.layers);
    push_title(&mut out, fc, g);
    push_lanes(&mut out, fc, g);
    push_containers(&mut out, fc, g);
    push_nodes(&mut out, fc, g, &nums);
    push_edges(&mut out, fc, g);
    push_str(&mut out, "      </root>\n    </mxGraphModel>\n  </diagram>\n");
    assert(out@ =~= page_xml(name@, *fc, *g));
    out
}


/// Every page has its geometry, and is small enough to number its steps.
pub open spec fn pages_fit(pages: Seq<super::Page>, gs: Seq<PageGeometry>) -> bool {
    &&& gs.len() == pages.len()
    &&& forall|i: int|
        0 <= i < pages.len() ==> {
            &&& geometry_fits((#[trigger] pages[i]).chart, gs[i])
            &&& 2 * pages[i].chart.nodes@.len() + pages[i].chart.edges@.len() <= usize::MAX
        }
}

pub open spec fn pages_xml(pages: Seq<super::Page>, gs: Seq<PageGeometry>, k: nat) -> Seq<char>
    decreases k,
{
    if k == 0 {
        Seq::empty()
    } else {
        pages_xml(pages, gs, (k - 1) as nat) + page_xml(pages[k - 1].name@, pages[k - 1].chart, gs[k - 1])
    }
}

pub open spec fn mxfile(body: Seq<char>) -> Seq<char> {
    "<mxfile host=\"app.diagrams.net\" type=\"device\">\n"@ + body + "</mxfile>\n"@
}

/// The whole document as a draw.io file, one `<diagram>` per page.
pub fn to_drawio(doc: &super::Document, geometry: &Vec<PageGeometry>) -> (r: String)
    requires
        pages_fit(doc.pages@, geometry@),
    ensures
        r@ == mxfile(pages_xml(doc.pages@, geometry@, doc.pages@.len())),
{
    let mut body = String::new();
    let mut i: usize = 0;
    while i < doc.pages.len()
        invariant
            pages_fit(doc.pages@, geometry@),
            i <= doc.pages@.len(),
            body@ == pages_xml(doc.pages@, geometry@, i as nat),
        decreases doc.pages.len() - i,
    {
        let page = &doc.pages[i];
        assert(geometry_fits(doc.pages@[i as int].chart, geometry@[i as int]));
        let x = drawio_page(page.name.as_str(), &page.chart, &geometry[i]);
        push_str(&mut body, x.as_str());
        i += 1;
    }
    let mut out = owned("<mxfile host=\"app.diagrams.net\" type=\"device\">\n");
    push_str(&mut out, body.as_str());
    push_str(&mut out, "</mxfile>\n");
    assert(out@ =~= mxfile(body@));
    out
}

/// A single page wrapped in a complete draw.io file.
pub fn to_drawio_page(name: &str, fc: &Flowchart, g: &PageGeometry) -> (r: String)
    requires
        geometry_fits(*fc, *g),
        2 * fc.nodes@.len() + fc.edges@.len() <= usize::MAX,
    ensures
        r@ == mxfile(page_xml(name@, *fc, *g)),
{
    let x = drawio_page(name, fc, g);
    let mut out = owned("<mxfile host=\"app.diagrams.net\" type=\"device\">\n");
    push_str(&mut out, x.as_str());
    push_str(&mut out, "</mxfile>\n");
    assert(out@ =~= mxfile(x@));
    out
}

} // verus!
