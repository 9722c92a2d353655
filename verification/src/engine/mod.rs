//! Self-contained flowchart model and operations.
//!
//! Geometry is not stored; the only numbers the model keeps are the manual
//! overrides a user gives (positions, sizes, ports, waypoints, label
//! placement and a few style values). Those are held as [`Decimal`]s: the
//! number's decimal text, exactly as the exporters print it.

pub mod chart;
pub mod drawio;
pub mod export;
pub mod import;
pub mod kinds;
pub mod mxgraph;
pub mod rank;
pub mod steps;
pub mod validate;

use vstd::prelude::*;

use crate::error::{quoted, quoted_name, FlowError};
use crate::text::{blank, chars_of, copy_string, is_blank, owned, str_eq, str_blank};

pub use chart::{Document, Page};
pub use kinds::{
    Arrow, ContainerKind, Direction, EdgeRouting, LayoutKind, LineStyle, Palette, Shape, Theme,
};

verus! {

/// Plain-text label for a node (HTML tags stripped when the label is rich).
pub fn export_plain_label(node: &Node) -> (r: String)
    ensures
        r@ == export::plain_label_spec(*node),
{
    export::plain_label(node)
}

/// A number given by the user, kept as its decimal text (e.g. `"0.5"`, `"12"`).
#[derive(Debug, Clone)]
pub struct Decimal {
    pub text: String,
}

/// A pair of numbers: an `[x, y]` position, size, port or waypoint.
#[derive(Debug, Clone)]
pub struct Point {
    pub x: Decimal,
    pub y: Decimal,
}

impl Decimal {
    /// A number from its decimal text.
    pub fn new(text: &str) -> (r: Decimal)
        ensures
            r.text@ == text@,
    {
        Decimal { text: owned(text) }
    }

    /// A copy of the number.
    pub fn copy(&self) -> (r: Decimal)
        ensures
            r == *self,
    {
        Decimal { text: copy_string(&self.text) }
    }

    /// A copy of an optional number.
    pub fn copy_opt(d: &Option<Decimal>) -> (r: Option<Decimal>)
        ensures
            r == *d,
    {
        match d {
            Some(x) => Some(x.copy()),
            None => None,
        }
    }
}

impl Point {
    /// A pair from the decimal texts of its two coordinates.
    pub fn new(x: &str, y: &str) -> (r: Point)
        ensures
            r.x.text@ == x@,
            r.y.text@ == y@,
    {
        Point { x: Decimal::new(x), y: Decimal::new(y) }
    }
}

/// Visual styling for a node (all optional; hex colors like `#RRGGBB`).
#[derive(Debug, Clone)]
pub struct Style {
    pub fill: Option<String>,
    pub stroke: Option<String>,
    pub text_color: Option<String>,
    pub stroke_width: Option<Decimal>,
    pub font_family: Option<String>,
    pub font_size: Option<Decimal>,
    pub bold: Option<bool>,
    pub italic: Option<bool>,
    /// Text alignment: "left", "center", or "right".
    pub align: Option<String>,
    /// 0–100 opacity.
    pub opacity: Option<Decimal>,
    pub rounded: Option<bool>,
    pub shadow: Option<bool>,
    pub dashed: Option<bool>,
    /// Gradient end color (hex); fills from `fill` to this color.
    pub gradient: Option<String>,
    /// Hand-drawn / sketch style (draw.io rough.js).
    pub sketch: Option<bool>,
    /// Glossy "glass" overlay.
    pub glass: Option<bool>,
}

/// `Some` wins over the current value.
pub open spec fn overlay<T>(cur: Option<T>, new: Option<T>) -> Option<T> {
    if new is Some {
        new
    } else {
        cur
    }
}

impl Style {
    /// The style with no field set.
    pub open spec fn empty_spec() -> Style {
        Style {
            fill: None,
            stroke: None,
            text_color: None,
            stroke_width: None,
            font_family: None,
            font_size: None,
            bold: None,
            italic: None,
            align: None,
            opacity: None,
            rounded: None,
            shadow: None,
            dashed: None,
            gradient: None,
            sketch: None,
            glass: None,
        }
    }

    /// No field is set.
    pub open spec fn is_empty_spec(self) -> bool {
        self == Style::empty_spec()
    }

    /// `other`'s set fields laid over `self`.
    pub open spec fn merge_spec(self, other: Style) -> Style {
        Style {
            fill: overlay(self.fill, other.fill),
            stroke: overlay(self.stroke, other.stroke),
            text_color: overlay(self.text_color, other.text_color),
            stroke_width: overlay(self.stroke_width, other.stroke_width),
            font_family: overlay(self.font_family, other.font_family),
            font_size: overlay(self.font_size, other.font_size),
            bold: overlay(self.bold, other.bold),
            italic: overlay(self.italic, other.italic),
            align: overlay(self.align, other.align),
            opacity: overlay(self.opacity, other.opacity),
            rounded: overlay(self.rounded, other.rounded),
            shadow: overlay(self.shadow, other.shadow),
            dashed: overlay(self.dashed, other.dashed),
            gradient: overlay(self.gradient, other.gradient),
            sketch: overlay(self.sketch, other.sketch),
            glass: overlay(self.glass, other.glass),
        }
    }

    /// The style with no field set.
    pub fn empty() -> (r: Style)
        ensures
            r == Style::empty_spec(),
    {
        Style {
            fill: None,
            stroke: None,
            text_color: None,
            stroke_width: None,
            font_family: None,
            font_size: None,
            bold: None,
            italic: None,
            align: None,
            opacity: None,
            rounded: None,
            shadow: None,
            dashed: None,
            gradient: None,
            sketch: None,
            glass: None,
        }
    }

    /// Whether no field is set.
    pub fn is_empty(&self) -> (r: bool)
        ensures
            r == self.is_empty_spec(),
    {
        self.fill.is_none() && self.stroke.is_none() && self.text_color.is_none()
            && self.stroke_width.is_none() && self.font_family.is_none()
            && self.font_size.is_none() && self.bold.is_none() && self.italic.is_none()
            && self.align.is_none() && self.opacity.is_none() && self.rounded.is_none()
            && self.shadow.is_none() && self.dashed.is_none() && self.gradient.is_none()
            && self.sketch.is_none() && self.glass.is_none()
    }

    /// Overlay `other`'s set fields onto `self`.
    pub fn merge(&mut self, other: Style)
        ensures
            *final(self) == old(self).merge_spec(other),
    {
        if other.fill.is_some() {
            self.fill = other.fill;
        }
        if other.stroke.is_some() {
            self.stroke = other.stroke;
        }
        if other.text_color.is_some() {
            self.text_color = other.text_color;
        }
        if other.stroke_width.is_some() {
            self.stroke_width = other.stroke_width;
        }
        if other.font_family.is_some() {
            self.font_family = other.font_family;
        }
        if other.font_size.is_some() {
            self.font_size = other.font_size;
        }
        if other.bold.is_some() {
            self.bold = other.bold;
        }
        if other.italic.is_some() {
            self.italic = other.italic;
        }
        if other.align.is_some() {
            self.align = other.align;
        }
        if other.opacity.is_some() {
            self.opacity = other.opacity;
        }
        if other.rounded.is_some() {
            self.rounded = other.rounded;
        }
        if other.shadow.is_some() {
            self.shadow = other.shadow;
        }
        if other.dashed.is_some() {
            self.dashed = other.dashed;
        }
        if other.gradient.is_some() {
            self.gradient = other.gradient;
        }
        if other.sketch.is_some() {
            self.sketch = other.sketch;
        }
        if other.glass.is_some() {
            self.glass = other.glass;
        }
    }
}

impl Default for Style {
    fn default() -> (r: Style)
        ensures
            r == Style::empty_spec(),
    {
        Style::empty()
    }
}

/// A flowchart node.
#[derive(Debug, Clone)]
pub struct Node {
    pub id: String,
    pub label: String,
    pub shape: Shape,
    pub style: Style,
    /// Optional image: a file path or data/remote URI shown on the node.
    pub image: Option<String>,
    /// Optional draw.io stencil key or raw `mxgraph.*` token (renders in the
    /// drawio export; takes precedence over `shape` there).
    pub stencil: Option<String>,
    /// Manual top-left `[x, y]` override.
    pub pos: Option<Point>,
    /// Manual `[width, height]` override.
    pub size: Option<Point>,
    /// When true, the label is rich HTML (tags are stripped in text exports).
    pub html: Option<bool>,
    /// UML class compartments below the title (e.g. attributes, then methods).
    pub compartments: Vec<Vec<String>>,
    /// Id of the layer this node belongs to (drawio layers).
    pub layer: Option<String>,
}

impl Node {
    /// A node freshly added with `id`, `label` and `shape`: every optional
    /// attribute unset.
    pub open spec fn is_fresh(self, id: Seq<char>, label: Seq<char>, shape: Shape) -> bool {
        &&& self.is_fresh_base(id, label, shape)
        &&& self.compartments@.len() == 0
    }

    /// Like [`Node::is_fresh`], whatever the compartments.
    pub open spec fn is_fresh_base(self, id: Seq<char>, label: Seq<char>, shape: Shape) -> bool {
        &&& self.id@ == id
        &&& self.label@ == label
        &&& self.shape == shape
        &&& self.style == Style::empty_spec()
        &&& self.image is None
        &&& self.stencil is None
        &&& self.pos is None
        &&& self.size is None
        &&& self.html is None
        &&& self.layer is None
    }
}

/// A directed connection between two nodes.
#[derive(Debug, Clone)]
pub struct Edge {
    pub from: String,
    pub to: String,
    pub label: Option<String>,
    pub line: LineStyle,
    /// Whether to draw an arrowhead at the target end.
    pub arrow: bool,
    /// Arrowhead at the target end. When set, overrides `arrow`.
    pub end_arrow: Option<Arrow>,
    /// Arrowhead at the source end.
    pub start_arrow: Option<Arrow>,
    /// Edge routing.
    pub routing: Option<EdgeRouting>,
    /// Stroke color hex.
    pub color: Option<String>,
    /// Manual routing waypoints the edge passes through.
    pub waypoints: Vec<Point>,
    /// Fixed exit port on the source, in 0..1 of its box.
    pub exit: Option<Point>,
    /// Fixed entry port on the target, in 0..1 of its box.
    pub entry: Option<Point>,
    /// Label position along the edge in `-1..1` (0 = middle).
    pub label_pos: Option<Decimal>,
    /// Label perpendicular offset in pixels.
    pub label_offset: Option<Decimal>,
    /// Label background color hex (`none` for transparent).
    pub label_bg: Option<String>,
    /// Label border color hex.
    pub label_border: Option<String>,
}

impl Edge {
    pub open spec fn resolved_end_spec(self) -> Arrow {
        match self.end_arrow {
            Some(a) => a,
            None => if self.arrow {
                Arrow::Classic
            } else {
                Arrow::NoArrow
            },
        }
    }

    pub open spec fn resolved_start_spec(self) -> Arrow {
        match self.start_arrow {
            Some(a) => a,
            None => Arrow::NoArrow,
        }
    }

    /// Resolved target arrowhead, honoring `end_arrow` then the `arrow` flag.
    pub fn resolved_end(&self) -> (r: Arrow)
        ensures
            r == self.resolved_end_spec(),
    {
        match self.end_arrow {
            Some(a) => a,
            None => if self.arrow {
                Arrow::Classic
            } else {
                Arrow::NoArrow
            },
        }
    }

    /// Resolved source arrowhead.
    pub fn resolved_start(&self) -> (r: Arrow)
        ensures
            r == self.resolved_start_spec(),
    {
        match self.start_arrow {
            Some(a) => a,
            None => Arrow::NoArrow,
        }
    }

    /// An edge freshly added: only endpoints, label, line and arrow flag set.
    pub open spec fn is_fresh(
        self,
        from: Seq<char>,
        to: Seq<char>,
        label: Option<String>,
        line: LineStyle,
        arrow: bool,
    ) -> bool {
        &&& self.from@ == from
        &&& self.to@ == to
        &&& self.label == label
        &&& self.line == line
        &&& self.arrow == arrow
        &&& self.end_arrow is None
        &&& self.start_arrow is None
        &&& self.routing is None
        &&& self.color is None
        &&& self.waypoints@.len() == 0
        &&& self.exit is None
        &&& self.entry is None
        &&& self.label_pos is None
        &&& self.label_offset is None
        &&& self.label_bg is None
        &&& self.label_border is None
    }

    /// The edge with the given style fields laid over it.
    pub open spec fn styled(
        self,
        start_arrow: Option<Arrow>,
        end_arrow: Option<Arrow>,
        routing: Option<EdgeRouting>,
        color: Option<String>,
    ) -> Edge {
        Edge {
            start_arrow: overlay(self.start_arrow, start_arrow),
            end_arrow: overlay(self.end_arrow, end_arrow),
            routing: overlay(self.routing, routing),
            color: overlay(self.color, color),
            ..self
        }
    }

    /// The edge with label and line style updated (set fields only).
    pub open spec fn updated(self, label: Option<String>, line: Option<LineStyle>) -> Edge {
        Edge { label: overlay(self.label, label), line: overlay(Some(self.line), line)->0, ..self }
    }

    /// The edge with label placement and colors updated (set fields only).
    pub open spec fn label_styled(
        self,
        pos: Option<Decimal>,
        offset: Option<Decimal>,
        bg: Option<String>,
        border: Option<String>,
    ) -> Edge {
        Edge {
            label_pos: overlay(self.label_pos, pos),
            label_offset: overlay(self.label_offset, offset),
            label_bg: overlay(self.label_bg, bg),
            label_border: overlay(self.label_border, border),
            ..self
        }
    }
}

/// A visual grouping of member nodes. Containers may nest via `parent`.
#[derive(Debug, Clone)]
pub struct Subgraph {
    pub id: String,
    pub label: String,
    pub members: Vec<String>,
    pub kind: ContainerKind,
    /// For pools: "horizontal" (default) or "vertical" lane stacking.
    pub orientation: Option<String>,
    /// Parent container id, for nesting (e.g. a lane inside a pool).
    pub parent: Option<String>,
}

/// A named draw.io layer. Hidden layers are emitted with `visible="0"`.
#[derive(Debug, Clone)]
pub struct Layer {
    pub id: String,
    pub label: String,
    pub visible: bool,
}

/// The full flowchart (one page).
#[derive(Debug, Clone)]
pub struct Flowchart {
    pub direction: Direction,
    pub title: Option<String>,
    pub nodes: Vec<Node>,
    pub edges: Vec<Edge>,
    pub subgraphs: Vec<Subgraph>,
    pub layout: LayoutKind,
    pub layers: Vec<Layer>,
    /// Stamp sequential step-number badges on the exported steps.
    pub number_steps: bool,
}

// ---------------------------------------------------------------------------
// Lookup by id
// ---------------------------------------------------------------------------

/// Position of the first key equal to `k` (`Iterator::position`).
pub open spec fn first_index(keys: Seq<Seq<char>>, k: Seq<char>) -> Option<int>
    decreases keys.len(),
{
    if keys.len() == 0 {
        None
    } else {
        match first_index(keys.drop_last(), k) {
            Some(i) => Some(i),
            None => if keys.last() == k {
                Some(keys.len() - 1)
            } else {
                None
            },
        }
    }
}

pub proof fn lemma_first_index(keys: Seq<Seq<char>>, k: Seq<char>)
    ensures
        first_index(keys, k) matches Some(i) ==> 0 <= i < keys.len() && keys[i] == k
            && forall|j: int| 0 <= j < i ==> keys[j] != k,
        first_index(keys, k) is None <==> forall|j: int| 0 <= j < keys.len() ==> keys[j] != k,
    decreases keys.len(),
{
    if keys.len() > 0 {
        lemma_first_index(keys.drop_last(), k);
        if first_index(keys.drop_last(), k) is None {
            assert forall|j: int| 0 <= j < keys.len() - 1 implies keys[j] != k by {
                assert(keys[j] == keys.drop_last()[j]);
            }
        } else {
            let i = first_index(keys.drop_last(), k)->0;
            assert(keys[i] == keys.drop_last()[i]);
            assert forall|j: int| 0 <= j < i implies keys[j] != k by {
                assert(keys[j] == keys.drop_last()[j]);
            }
        }
    }
}

pub proof fn lemma_first_index_push(keys: Seq<Seq<char>>, x: Seq<char>, k: Seq<char>)
    ensures
        first_index(keys.push(x), k) == (match first_index(keys, k) {
            Some(i) => Some(i),
            None => if x == k {
                Some(keys.len() as int)
            } else {
                None
            },
        }),
{
    assert(keys.push(x).drop_last() =~= keys);
}

/// The first index is the least position holding the key.
pub proof fn lemma_first_index_at(keys: Seq<Seq<char>>, k: Seq<char>, i: int)
    requires
        0 <= i < keys.len(),
        keys[i] == k,
        forall|j: int| 0 <= j < i ==> keys[j] != k,
    ensures
        first_index(keys, k) == Some(i),
{
    lemma_first_index(keys, k);
    if let Some(i2) = first_index(keys, k) {
        if i2 < i {
        } else if i < i2 {
        }
    }
}

pub open spec fn node_ids(nodes: Seq<Node>) -> Seq<Seq<char>> {
    nodes.map_values(|n: Node| n.id@)
}

pub open spec fn subgraph_ids(sgs: Seq<Subgraph>) -> Seq<Seq<char>> {
    sgs.map_values(|s: Subgraph| s.id@)
}

pub open spec fn layer_ids(layers: Seq<Layer>) -> Seq<Seq<char>> {
    layers.map_values(|l: Layer| l.id@)
}

/// Index of the first node with id `id`.
pub fn find_node(nodes: &Vec<Node>, id: &str) -> (r: Option<usize>)
    ensures
        match r {
            Some(i) => first_index(node_ids(nodes@), id@) == Some(i as int),
            None => first_index(node_ids(nodes@), id@) is None,
        },
        r matches Some(i) ==> i < nodes@.len() && nodes@[i as int].id@ == id@,
{
    let mut i: usize = 0;
    while i < nodes.len()
        invariant
            i <= nodes.len(),
            first_index(node_ids(nodes@).take(i as int), id@) is None,
        decreases nodes.len() - i,
    {
        proof {
            lemma_first_index_push(node_ids(nodes@).take(i as int), nodes@[i as int].id@, id@);
            assert(node_ids(nodes@).take(i as int).push(nodes@[i as int].id@) =~= node_ids(
                nodes@,
            ).take(i + 1));
        }
        if str_eq(nodes[i].id.as_str(), id) {
            proof {
                lemma_first_index(node_ids(nodes@).take(i as int), id@);
                assert forall|j: int| 0 <= j < i implies node_ids(nodes@)[j] != id@ by {
                    assert(node_ids(nodes@).take(i as int)[j] == node_ids(nodes@)[j]);
                }
                lemma_first_index_at(node_ids(nodes@), id@, i as int);
            }
            return Some(i);
        }
        i += 1;
    }
    assert(node_ids(nodes@).take(nodes.len() as int) =~= node_ids(nodes@));
    None
}

/// Index of the first container with id `id`.
pub fn find_subgraph(sgs: &Vec<Subgraph>, id: &str) -> (r: Option<usize>)
    ensures
        match r {
            Some(i) => first_index(subgraph_ids(sgs@), id@) == Some(i as int),
            None => first_index(subgraph_ids(sgs@), id@) is None,
        },
        r matches Some(i) ==> i < sgs@.len() && sgs@[i as int].id@ == id@,
{
    let mut i: usize = 0;
    while i < sgs.len()
        invariant
            i <= sgs.len(),
            first_index(subgraph_ids(sgs@).take(i as int), id@) is None,
        decreases sgs.len() - i,
    {
        proof {
            lemma_first_index_push(subgraph_ids(sgs@).take(i as int), sgs@[i as int].id@, id@);
            assert(subgraph_ids(sgs@).take(i as int).push(sgs@[i as int].id@) =~= subgraph_ids(
                sgs@,
            ).take(i + 1));
        }
        if str_eq(sgs[i].id.as_str(), id) {
            proof {
                lemma_first_index(subgraph_ids(sgs@).take(i as int), id@);
                assert forall|j: int| 0 <= j < i implies subgraph_ids(sgs@)[j] != id@ by {
                    assert(subgraph_ids(sgs@).take(i as int)[j] == subgraph_ids(sgs@)[j]);
                }
                lemma_first_index_at(subgraph_ids(sgs@), id@, i as int);
            }
            return Some(i);
        }
        i += 1;
    }
    assert(subgraph_ids(sgs@).take(sgs.len() as int) =~= subgraph_ids(sgs@));
    None
}

/// Index of the first layer with id `id`.
pub fn find_layer(layers: &Vec<Layer>, id: &str) -> (r: Option<usize>)
    ensures
        match r {
            Some(i) => first_index(layer_ids(layers@), id@) == Some(i as int),
            None => first_index(layer_ids(layers@), id@) is None,
        },
        r matches Some(i) ==> i < layers@.len() && layers@[i as int].id@ == id@,
{
    let mut i: usize = 0;
    while i < layers.len()
        invariant
            i <= layers.len(),
            first_index(layer_ids(layers@).take(i as int), id@) is None,
        decreases layers.len() - i,
    {
        proof {
            lemma_first_index_push(layer_ids(layers@).take(i as int), layers@[i as int].id@, id@);
            assert(layer_ids(layers@).take(i as int).push(layers@[i as int].id@) =~= layer_ids(
                layers@,
            ).take(i + 1));
        }
        if str_eq(layers[i].id.as_str(), id) {
            proof {
                lemma_first_index(layer_ids(layers@).take(i as int), id@);
                assert forall|j: int| 0 <= j < i implies layer_ids(layers@)[j] != id@ by {
                    assert(layer_ids(layers@).take(i as int)[j] == layer_ids(layers@)[j]);
                }
                lemma_first_index_at(layer_ids(layers@), id@, i as int);
            }
            return Some(i);
        }
        i += 1;
    }
    assert(layer_ids(layers@).take(layers.len() as int) =~= layer_ids(layers@));
    None
}

} // verus!
