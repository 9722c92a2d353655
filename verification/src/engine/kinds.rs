//! The enumerations of the flowchart model: directions, shapes, arrowheads,
//! routing, containers, line styles, layouts and themes, with their parsers
//! and the tokens they render as.

use vstd::prelude::*;

use crate::text::{eq_lit, key_of, key_spec, lower_of, lower_spec, owned, push_chars, push_str,
    upper_of, upper_spec, chars_of};

verus! {

/// Flow direction (rank axis + growth orientation).
#[derive(Debug, Clone, Copy, PartialEq, Eq, Structural)]
pub enum Direction {
    /// Top to bottom.
    TB,
    /// Bottom to top.
    BT,
    /// Left to right.
    LR,
    /// Right to left.
    RL,
}

impl Direction {
    /// The direction named by an upper-cased token.
    pub open spec fn parse_spec(k: Seq<char>) -> Option<Direction> {
        if k == "TB"@ || k == "TD"@ || k == "DOWN"@ {
            Some(Direction::TB)
        } else if k == "BT"@ || k == "UP"@ {
            Some(Direction::BT)
        } else if k == "LR"@ || k == "RIGHT"@ {
            Some(Direction::LR)
        } else if k == "RL"@ || k == "LEFT"@ {
            Some(Direction::RL)
        } else {
            None
        }
    }

    /// Parse a direction token, case-insensitively.
    pub fn parse(s: &str) -> (r: Option<Direction>)
        ensures
            r == Direction::parse_spec(upper_spec(s@)),
    {
        let k = upper_of(s);
        if eq_lit(&k, "TB") || eq_lit(&k, "TD") || eq_lit(&k, "DOWN") {
            Some(Direction::TB)
        } else if eq_lit(&k, "BT") || eq_lit(&k, "UP") {
            Some(Direction::BT)
        } else if eq_lit(&k, "LR") || eq_lit(&k, "RIGHT") {
            Some(Direction::LR)
        } else if eq_lit(&k, "RL") || eq_lit(&k, "LEFT") {
            Some(Direction::RL)
        } else {
            None
        }
    }

    pub open spec fn is_vertical_spec(self) -> bool {
        self == Direction::TB || self == Direction::BT
    }

    /// True when ranks stack vertically (TB/BT).
    pub fn is_vertical(self) -> (r: bool)
        ensures
            r == self.is_vertical_spec(),
    {
        match self {
            Direction::TB | Direction::BT => true,
            _ => false,
        }
    }

    pub open spec fn mermaid_spec(self) -> Seq<char> {
        match self {
            Direction::TB => "TD"@,
            Direction::BT => "BT"@,
            Direction::LR => "LR"@,
            Direction::RL => "RL"@,
        }
    }

    /// The Mermaid direction token.
    pub fn as_mermaid(self) -> (r: &'static str)
        ensures
            r@ == self.mermaid_spec(),
    {
        match self {
            Direction::TB => "TD",
            Direction::BT => "BT",
            Direction::LR => "LR",
            Direction::RL => "RL",
        }
    }

    pub open spec fn dot_spec(self) -> Seq<char> {
        if self.is_vertical_spec() {
            "TB"@
        } else {
            "LR"@
        }
    }

    /// The Graphviz `rankdir` value.
    pub fn as_dot(self) -> (r: &'static str)
        ensures
            r@ == self.dot_spec(),
    {
        if self.is_vertical() {
            "TB"
        } else {
            "LR"
        }
    }
}

/// Node geometry preset. Names mirror the common Mermaid node shapes.
#[derive(Debug, Clone, Copy, PartialEq, Eq, Structural)]
pub enum Shape {
    Rectangle,
    RoundRect,
    Stadium,
    Subroutine,
    Cylinder,
    Circle,
    DoubleCircle,
    Diamond,
    Hexagon,
    Parallelogram,
    ParallelogramAlt,
    Trapezoid,
    TrapezoidAlt,
    Note,
    Card,
    Document,
    /// UML class box (name / attributes / methods compartments).
    UmlClass,
}

impl Shape {
    /// The shape named by a lookup key (see `key_spec`).
    pub open spec fn parse_spec(k: Seq<char>) -> Option<Shape> {
        if k == "rect"@ || k == "rectangle"@ || k == "box"@ || k == "process"@ {
            Some(Shape::Rectangle)
        } else if k == "round"@ || k == "round_rect"@ || k == "rounded"@ {
            Some(Shape::RoundRect)
        } else if k == "stadium"@ || k == "pill"@ || k == "terminal"@ || k == "start_end"@ {
            Some(Shape::Stadium)
        } else if k == "subroutine"@ || k == "predefined"@ {
            Some(Shape::Subroutine)
        } else if k == "cylinder"@ || k == "database"@ || k == "db"@ {
            Some(Shape::Cylinder)
        } else if k == "circle"@ {
            Some(Shape::Circle)
        } else if k == "double_circle"@ || k == "doublecircle"@ {
            Some(Shape::DoubleCircle)
        } else if k == "diamond"@ || k == "rhombus"@ || k == "decision"@ {
            Some(Shape::Diamond)
        } else if k == "hexagon"@ || k == "hex"@ || k == "prepare"@ {
            Some(Shape::Hexagon)
        } else if k == "parallelogram"@ || k == "data"@ || k == "io"@ {
            Some(Shape::Parallelogram)
        } else if k == "parallelogram_alt"@ || k == "data_alt"@ {
            Some(Shape::ParallelogramAlt)
        } else if k == "trapezoid"@ {
            Some(Shape::Trapezoid)
        } else if k == "trapezoid_alt"@ {
            Some(Shape::TrapezoidAlt)
        } else if k == "note"@ || k == "comment"@ {
            Some(Shape::Note)
        } else if k == "card"@ {
            Some(Shape::Card)
        } else if k == "document"@ || k == "doc"@ {
            Some(Shape::Document)
        } else if k == "uml_class"@ || k == "class"@ || k == "umlclass"@ {
            Some(Shape::UmlClass)
        } else {
            None
        }
    }

    /// Parse a shape name (case-insensitive; `-` and space read as `_`).
    pub fn parse(s: &str) -> (r: Option<Shape>)
        ensures
            r == Shape::parse_spec(key_spec(s@)),
    {
        let k = key_of(s);
        if eq_lit(&k, "rect") || eq_lit(&k, "rectangle") || eq_lit(&k, "box") || eq_lit(&k, "process") {
            Some(Shape::Rectangle)
        } else if eq_lit(&k, "round") || eq_lit(&k, "round_rect") || eq_lit(&k, "rounded") {
            Some(Shape::RoundRect)
        } else if eq_lit(&k, "stadium") || eq_lit(&k, "pill") || eq_lit(&k, "terminal") || eq_lit(&k, "start_end") {
            Some(Shape::Stadium)
        } else if eq_lit(&k, "subroutine") || eq_lit(&k, "predefined") {
            Some(Shape::Subroutine)
        } else if eq_lit(&k, "cylinder") || eq_lit(&k, "database") || eq_lit(&k, "db") {
            Some(Shape::Cylinder)
        } else if eq_lit(&k, "circle") {
            Some(Shape::Circle)
        } else if eq_lit(&k, "double_circle") || eq_lit(&k, "doublecircle") {
            Some(Shape::DoubleCircle)
        } else if eq_lit(&k, "diamond") || eq_lit(&k, "rhombus") || eq_lit(&k, "decision") {
            Some(Shape::Diamond)
        } else if eq_lit(&k, "hexagon") || eq_lit(&k, "hex") || eq_lit(&k, "prepare") {
            Some(Shape::Hexagon)
        } else if eq_lit(&k, "parallelogram") || eq_lit(&k, "data") || eq_lit(&k, "io") {
            Some(Shape::Parallelogram)
        } else if eq_lit(&k, "parallelogram_alt") || eq_lit(&k, "data_alt") {
            Some(Shape::ParallelogramAlt)
        } else if eq_lit(&k, "trapezoid") {
            Some(Shape::Trapezoid)
        } else if eq_lit(&k, "trapezoid_alt") {
            Some(Shape::TrapezoidAlt)
        } else if eq_lit(&k, "note") || eq_lit(&k, "comment") {
            Some(Shape::Note)
        } else if eq_lit(&k, "card") {
            Some(Shape::Card)
        } else if eq_lit(&k, "document") || eq_lit(&k, "doc") {
            Some(Shape::Document)
        } else if eq_lit(&k, "uml_class") || eq_lit(&k, "class") || eq_lit(&k, "umlclass") {
            Some(Shape::UmlClass)
        } else {
            None
        }
    }

    pub open spec fn label_spec(self) -> Seq<char> {
        match self {
            Shape::Rectangle => "rectangle"@,
            Shape::RoundRect => "round_rect"@,
            Shape::Stadium => "stadium"@,
            Shape::Subroutine => "subroutine"@,
            Shape::Cylinder => "cylinder"@,
            Shape::Circle => "circle"@,
            Shape::DoubleCircle => "double_circle"@,
            Shape::Diamond => "diamond"@,
            Shape::Hexagon => "hexagon"@,
            Shape::Parallelogram => "parallelogram"@,
            Shape::ParallelogramAlt => "parallelogram_alt"@,
            Shape::Trapezoid => "trapezoid"@,
            Shape::TrapezoidAlt => "trapezoid_alt"@,
            Shape::Note => "note"@,
            Shape::Card => "card"@,
            Shape::Document => "document"@,
            Shape::UmlClass => "uml_class"@,
        }
    }

    /// The canonical shape name.
    pub fn label(self) -> (r: &'static str)
        ensures
            r@ == self.label_spec(),
    {
        match self {
            Shape::Rectangle => "rectangle",
            Shape::RoundRect => "round_rect",
            Shape::Stadium => "stadium",
            Shape::Subroutine => "subroutine",
            Shape::Cylinder => "cylinder",
            Shape::Circle => "circle",
            Shape::DoubleCircle => "double_circle",
            Shape::Diamond => "diamond",
            Shape::Hexagon => "hexagon",
            Shape::Parallelogram => "parallelogram",
            Shape::ParallelogramAlt => "parallelogram_alt",
            Shape::Trapezoid => "trapezoid",
            Shape::TrapezoidAlt => "trapezoid_alt",
            Shape::Note => "note",
            Shape::Card => "card",
            Shape::Document => "document",
            Shape::UmlClass => "uml_class",
        }
    }

    /// Opening and closing Mermaid delimiters of the shape. Shapes without a
    /// native Mermaid form use the rectangle's.
    pub open spec fn mermaid_delims(self) -> (Seq<char>, Seq<char>) {
        match self {
            Shape::Rectangle | Shape::Note | Shape::Card | Shape::Document | Shape::UmlClass => (
                "["@,
                "]"@,
            ),
            Shape::RoundRect => ("("@, ")"@),
            Shape::Stadium => ("(["@, "])"@),
            Shape::Subroutine => ("[["@, "]]"@),
            Shape::Cylinder => ("[("@, ")]"@),
            Shape::Circle => ("(("@, "))"@),
            Shape::DoubleCircle => ("((("@, ")))"@),
            Shape::Diamond => ("{"@, "}"@),
            Shape::Hexagon => ("{{"@, "}}"@),
            Shape::Parallelogram => ("[/"@, "/]"@),
            Shape::ParallelogramAlt => ("[\\"@, "\\]"@),
            Shape::Trapezoid => ("[/"@, "\\]"@),
            Shape::TrapezoidAlt => ("[\\"@, "/]"@),
        }
    }

    pub open spec fn mermaid_wrap_spec(self, label: Seq<char>) -> Seq<char> {
        self.mermaid_delims().0 + label + self.mermaid_delims().1
    }

    fn mermaid_delim_strs(self) -> (r: (&'static str, &'static str))
        ensures
            (r.0@, r.1@) == self.mermaid_delims(),
    {
        match self {
            Shape::Rectangle | Shape::Note | Shape::Card | Shape::Document | Shape::UmlClass => (
                "[",
                "]",
            ),
            Shape::RoundRect => ("(", ")"),
            Shape::Stadium => ("([", "])"),
            Shape::Subroutine => ("[[", "]]"),
            Shape::Cylinder => ("[(", ")]"),
            Shape::Circle => ("((", "))"),
            Shape::DoubleCircle => ("(((", ")))"),
            Shape::Diamond => ("{", "}"),
            Shape::Hexagon => ("{{", "}}"),
            Shape::Parallelogram => ("[/", "/]"),
            Shape::ParallelogramAlt => ("[\\", "\\]"),
            Shape::Trapezoid => ("[/", "\\]"),
            Shape::TrapezoidAlt => ("[\\", "/]"),
        }
    }

    /// Append `label` wrapped in this shape's Mermaid delimiters.
    pub fn push_mermaid_wrap(self, out: &mut String, label: &Vec<char>)
        ensures
            final(out)@ == old(out)@ + self.mermaid_wrap_spec(label@),
    {
        let (open, close) = self.mermaid_delim_strs();
        push_str(out, open);
        push_chars(out, label);
        push_str(out, close);
        assert(old(out)@ + open@ + label@ + close@ =~= old(out)@ + self.mermaid_wrap_spec(label@));
    }

    /// Wrap a label in this shape's Mermaid delimiters.
    pub fn mermaid_wrap(self, label: &str) -> (r: String)
        ensures
            r@ == self.mermaid_wrap_spec(label@),
    {
        let v = chars_of(label);
        let mut out = String::new();
        self.push_mermaid_wrap(&mut out, &v);
        assert(out@ =~= self.mermaid_wrap_spec(label@));
        out
    }
}

/// Arrowhead style for an edge end (maps to draw.io arrow names).
#[derive(Debug, Clone, Copy, PartialEq, Eq, Structural)]
pub enum Arrow {
    /// No arrowhead.
    NoArrow,
    Open,
    Block,
    Classic,
    Diamond,
    Oval,
    Cross,
    /// Crow's-foot "one" (ERD).
    ErOne,
    /// Crow's-foot "many" (ERD).
    ErMany,
    ErZeroToOne,
    ErZeroToMany,
    ErOneToMany,
}

impl Arrow {
    pub open spec fn parse_spec(k: Seq<char>) -> Option<Arrow> {
        if k == "none"@ {
            Some(Arrow::NoArrow)
        } else if k == "open"@ {
            Some(Arrow::Open)
        } else if k == "block"@ {
            Some(Arrow::Block)
        } else if k == "classic"@ || k == "arrow"@ {
            Some(Arrow::Classic)
        } else if k == "diamond"@ {
            Some(Arrow::Diamond)
        } else if k == "oval"@ || k == "circle"@ {
            Some(Arrow::Oval)
        } else if k == "cross"@ {
            Some(Arrow::Cross)
        } else if k == "er_one"@ || k == "one"@ {
            Some(Arrow::ErOne)
        } else if k == "er_many"@ || k == "many"@ || k == "crowsfoot"@ {
            Some(Arrow::ErMany)
        } else if k == "er_zero_to_one"@ || k == "zero_or_one"@ {
            Some(Arrow::ErZeroToOne)
        } else if k == "er_zero_to_many"@ || k == "zero_or_many"@ {
            Some(Arrow::ErZeroToMany)
        } else if k == "er_one_to_many"@ || k == "one_or_many"@ {
            Some(Arrow::ErOneToMany)
        } else {
            None
        }
    }

    /// Parse an arrowhead name (case-insensitive; `-` and space read as `_`).
    pub fn parse(s: &str) -> (r: Option<Arrow>)
        ensures
            r == Arrow::parse_spec(key_spec(s@)),
    {
        let k = key_of(s);
        if eq_lit(&k, "none") {
            Some(Arrow::NoArrow)
        } else if eq_lit(&k, "open") {
            Some(Arrow::Open)
        } else if eq_lit(&k, "block") {
            Some(Arrow::Block)
        } else if eq_lit(&k, "classic") || eq_lit(&k, "arrow") {
            Some(Arrow::Classic)
        } else if eq_lit(&k, "diamond") {
            Some(Arrow::Diamond)
        } else if eq_lit(&k, "oval") || eq_lit(&k, "circle") {
            Some(Arrow::Oval)
        } else if eq_lit(&k, "cross") {
            Some(Arrow::Cross)
        } else if eq_lit(&k, "er_one") || eq_lit(&k, "one") {
            Some(Arrow::ErOne)
        } else if eq_lit(&k, "er_many") || eq_lit(&k, "many") || eq_lit(&k, "crowsfoot") {
            Some(Arrow::ErMany)
        } else if eq_lit(&k, "er_zero_to_one") || eq_lit(&k, "zero_or_one") {
            Some(Arrow::ErZeroToOne)
        } else if eq_lit(&k, "er_zero_to_many") || eq_lit(&k, "zero_or_many") {
            Some(Arrow::ErZeroToMany)
        } else if eq_lit(&k, "er_one_to_many") || eq_lit(&k, "one_or_many") {
            Some(Arrow::ErOneToMany)
        } else {
            None
        }
    }

    pub open spec fn drawio_spec(self) -> Seq<char> {
        match self {
            Arrow::NoArrow => "none"@,
            Arrow::Open => "open"@,
            Arrow::Block => "block"@,
            Arrow::Classic => "classic"@,
            Arrow::Diamond => "diamond"@,
            Arrow::Oval => "oval"@,
            Arrow::Cross => "cross"@,
            Arrow::ErOne => "ERone"@,
            Arrow::ErMany => "ERmany"@,
            Arrow::ErZeroToOne => "ERzeroToOne"@,
            Arrow::ErZeroToMany => "ERzeroToMany"@,
            Arrow::ErOneToMany => "ERoneToMany"@,
        }
    }

    /// The draw.io arrow name.
    pub fn drawio(self) -> (r: &'static str)
        ensures
            r@ == self.drawio_spec(),
    {
        match self {
            Arrow::NoArrow => "none",
            Arrow::Open => "open",
            Arrow::Block => "block",
            Arrow::Classic => "classic",
            Arrow::Diamond => "diamond",
            Arrow::Oval => "oval",
            Arrow::Cross => "cross",
            Arrow::ErOne => "ERone",
            Arrow::ErMany => "ERmany",
            Arrow::ErZeroToOne => "ERzeroToOne",
            Arrow::ErZeroToMany => "ERzeroToMany",
            Arrow::ErOneToMany => "ERoneToMany",
        }
    }
}

/// Edge routing style (maps to draw.io edgeStyle).
#[derive(Debug, Clone, Copy, PartialEq, Eq, Structural)]
pub enum EdgeRouting {
    Orthogonal,
    Straight,
    Curved,
    EntityRelation,
}

impl EdgeRouting {
    pub open spec fn parse_spec(k: Seq<char>) -> Option<EdgeRouting> {
        if k == "orthogonal"@ || k == "ortho"@ {
            Some(EdgeRouting::Orthogonal)
        } else if k == "straight"@ || k == "line"@ {
            Some(EdgeRouting::Straight)
        } else if k == "curved"@ || k == "curve"@ {
            Some(EdgeRouting::Curved)
        } else if k == "entity_relation"@ || k == "entity"@ || k == "er"@ {
            Some(EdgeRouting::EntityRelation)
        } else {
            None
        }
    }

    /// Parse a routing name (case-insensitive; `-` and space read as `_`).
    pub fn parse(s: &str) -> (r: Option<EdgeRouting>)
        ensures
            r == EdgeRouting::parse_spec(key_spec(s@)),
    {
        let k = key_of(s);
        if eq_lit(&k, "orthogonal") || eq_lit(&k, "ortho") {
            Some(EdgeRouting::Orthogonal)
        } else if eq_lit(&k, "straight") || eq_lit(&k, "line") {
            Some(EdgeRouting::Straight)
        } else if eq_lit(&k, "curved") || eq_lit(&k, "curve") {
            Some(EdgeRouting::Curved)
        } else if eq_lit(&k, "entity_relation") || eq_lit(&k, "entity") || eq_lit(&k, "er") {
            Some(EdgeRouting::EntityRelation)
        } else {
            None
        }
    }

    pub open spec fn drawio_spec(self) -> Seq<char> {
        match self {
            EdgeRouting::Orthogonal => "edgeStyle=orthogonalEdgeStyle;rounded=0;"@,
            EdgeRouting::Straight => "edgeStyle=none;rounded=0;"@,
            EdgeRouting::Curved => "edgeStyle=orthogonalEdgeStyle;curved=1;rounded=0;"@,
            EdgeRouting::EntityRelation => "edgeStyle=entityRelationEdgeStyle;rounded=0;"@,
        }
    }

    /// draw.io edge style fragment (trailing `;`).
    pub fn drawio(self) -> (r: &'static str)
        ensures
            r@ == self.drawio_spec(),
    {
        match self {
            EdgeRouting::Orthogonal => "edgeStyle=orthogonalEdgeStyle;rounded=0;",
            EdgeRouting::Straight => "edgeStyle=none;rounded=0;",
            EdgeRouting::Curved => "edgeStyle=orthogonalEdgeStyle;curved=1;rounded=0;",
            EdgeRouting::EntityRelation => "edgeStyle=entityRelationEdgeStyle;rounded=0;",
        }
    }
}

/// Kind of node grouping container.
#[derive(Debug, Clone, Copy, PartialEq, Eq, Structural)]
pub enum ContainerKind {
    /// Dashed, title-less grouping (default).
    Group,
    /// Solid titled box.
    Container,
    /// A single titled swimlane.
    Swimlane,
    /// An outer pool that holds swimlanes.
    Pool,
}

impl ContainerKind {
    pub open spec fn parse_spec(k: Seq<char>) -> Option<ContainerKind> {
        if k == "group"@ {
            Some(ContainerKind::Group)
        } else if k == "container"@ || k == "box"@ {
            Some(ContainerKind::Container)
        } else if k == "swimlane"@ || k == "lane"@ {
            Some(ContainerKind::Swimlane)
        } else if k == "pool"@ {
            Some(ContainerKind::Pool)
        } else {
            None
        }
    }

    /// Parse a container kind (case-insensitive).
    pub fn parse(s: &str) -> (r: Option<ContainerKind>)
        ensures
            r == ContainerKind::parse_spec(lower_spec(s@)),
    {
        let k = lower_of(s);
        if eq_lit(&k, "group") {
            Some(ContainerKind::Group)
        } else if eq_lit(&k, "container") || eq_lit(&k, "box") {
            Some(ContainerKind::Container)
        } else if eq_lit(&k, "swimlane") || eq_lit(&k, "lane") {
            Some(ContainerKind::Swimlane)
        } else if eq_lit(&k, "pool") {
            Some(ContainerKind::Pool)
        } else {
            None
        }
    }

    pub open spec fn label_spec(self) -> Seq<char> {
        match self {
            ContainerKind::Group => "group"@,
            ContainerKind::Container => "container"@,
            ContainerKind::Swimlane => "swimlane"@,
            ContainerKind::Pool => "pool"@,
        }
    }

    /// The canonical kind name.
    pub fn label(self) -> (r: &'static str)
        ensures
            r@ == self.label_spec(),
    {
        match self {
            ContainerKind::Group => "group",
            ContainerKind::Container => "container",
            ContainerKind::Swimlane => "swimlane",
            ContainerKind::Pool => "pool",
        }
    }
}

impl Default for ContainerKind {
    fn default() -> (r: ContainerKind)
        ensures
            r == ContainerKind::Group,
    {
        ContainerKind::Group
    }
}

/// Edge line rendering.
#[derive(Debug, Clone, Copy, PartialEq, Eq, Structural)]
pub enum LineStyle {
    Solid,
    Dotted,
    Thick,
}

impl LineStyle {
    pub open spec fn parse_spec(k: Seq<char>) -> Option<LineStyle> {
        if k == "solid"@ || k == "normal"@ {
            Some(LineStyle::Solid)
        } else if k == "dotted"@ || k == "dashed"@ || k == "dash"@ {
            Some(LineStyle::Dotted)
        } else if k == "thick"@ || k == "bold"@ {
            Some(LineStyle::Thick)
        } else {
            None
        }
    }

    /// Parse a line style (case-insensitive).
    pub fn parse(s: &str) -> (r: Option<LineStyle>)
        ensures
            r == LineStyle::parse_spec(lower_spec(s@)),
    {
        let k = lower_of(s);
        if eq_lit(&k, "solid") || eq_lit(&k, "normal") {
            Some(LineStyle::Solid)
        } else if eq_lit(&k, "dotted") || eq_lit(&k, "dashed") || eq_lit(&k, "dash") {
            Some(LineStyle::Dotted)
        } else if eq_lit(&k, "thick") || eq_lit(&k, "bold") {
            Some(LineStyle::Thick)
        } else {
            None
        }
    }
}

/// Auto-layout algorithm for a chart.
#[derive(Debug, Clone, Copy, PartialEq, Eq, Structural)]
pub enum LayoutKind {
    /// Layered ranks by longest path (default; flowcharts, swimlanes).
    Layered,
    /// Hierarchical tree: a root fans out to children along the flow direction.
    Tree,
    /// Mind map: a central root radiates branches both ways on the cross axis.
    MindMap,
}

impl Default for LayoutKind {
    fn default() -> (r: LayoutKind)
        ensures
            r == LayoutKind::Layered,
    {
        LayoutKind::Layered
    }
}

impl LayoutKind {
    pub open spec fn parse_spec(k: Seq<char>) -> Option<LayoutKind> {
        if k == "layered"@ || k == "flow"@ || k == "default"@ {
            Some(LayoutKind::Layered)
        } else if k == "tree"@ || k == "hierarchy"@ || k == "org"@ {
            Some(LayoutKind::Tree)
        } else if k == "mind_map"@ || k == "mindmap"@ || k == "radial"@ {
            Some(LayoutKind::MindMap)
        } else {
            None
        }
    }

    /// Parse a layout name (case-insensitive; `-` and space read as `_`).
    pub fn parse(s: &str) -> (r: Option<LayoutKind>)
        ensures
            r == LayoutKind::parse_spec(key_spec(s@)),
    {
        let k = key_of(s);
        if eq_lit(&k, "layered") || eq_lit(&k, "flow") || eq_lit(&k, "default") {
            Some(LayoutKind::Layered)
        } else if eq_lit(&k, "tree") || eq_lit(&k, "hierarchy") || eq_lit(&k, "org") {
            Some(LayoutKind::Tree)
        } else if eq_lit(&k, "mind_map") || eq_lit(&k, "mindmap") || eq_lit(&k, "radial") {
            Some(LayoutKind::MindMap)
        } else {
            None
        }
    }

    pub open spec fn label_spec(self) -> Seq<char> {
        match self {
            LayoutKind::Layered => "layered"@,
            LayoutKind::Tree => "tree"@,
            LayoutKind::MindMap => "mind_map"@,
        }
    }

    /// The canonical layout name.
    pub fn label(self) -> (r: &'static str)
        ensures
            r@ == self.label_spec(),
    {
        match self {
            LayoutKind::Layered => "layered",
            LayoutKind::Tree => "tree",
            LayoutKind::MindMap => "mind_map",
        }
    }
}

/// A named color theme applied across a chart.
#[derive(Debug, Clone, Copy, PartialEq, Eq, Structural)]
pub enum Theme {
    Blue,
    Green,
    Gray,
    Purple,
    Orange,
    Dark,
}

/// Resolved color set for a theme.
pub struct Palette {
    pub node_fill: &'static str,
    pub node_stroke: &'static str,
    pub accent_fill: &'static str,
    pub accent_stroke: &'static str,
    pub decision_fill: &'static str,
    pub decision_stroke: &'static str,
    pub text: &'static str,
    pub edge: &'static str,
}

/// The eight colors of a palette, in field order.
pub open spec fn palette_view(p: Palette) -> Seq<Seq<char>> {
    seq![
        p.node_fill@,
        p.node_stroke@,
        p.accent_fill@,
        p.accent_stroke@,
        p.decision_fill@,
        p.decision_stroke@,
        p.text@,
        p.edge@,
    ]
}

impl Theme {
    pub open spec fn parse_spec(k: Seq<char>) -> Option<Theme> {
        if k == "blue"@ || k == "default"@ {
            Some(Theme::Blue)
        } else if k == "green"@ {
            Some(Theme::Green)
        } else if k == "gray"@ || k == "grey"@ || k == "mono"@ {
            Some(Theme::Gray)
        } else if k == "purple"@ {
            Some(Theme::Purple)
        } else if k == "orange"@ {
            Some(Theme::Orange)
        } else if k == "dark"@ || k == "midnight"@ {
            Some(Theme::Dark)
        } else {
            None
        }
    }

    /// Parse a theme name (case-insensitive).
    pub fn parse(s: &str) -> (r: Option<Theme>)
        ensures
            r == Theme::parse_spec(lower_spec(s@)),
    {
        let k = lower_of(s);
        if eq_lit(&k, "blue") || eq_lit(&k, "default") {
            Some(Theme::Blue)
        } else if eq_lit(&k, "green") {
            Some(Theme::Green)
        } else if eq_lit(&k, "gray") || eq_lit(&k, "grey") || eq_lit(&k, "mono") {
            Some(Theme::Gray)
        } else if eq_lit(&k, "purple") {
            Some(Theme::Purple)
        } else if eq_lit(&k, "orange") {
            Some(Theme::Orange)
        } else if eq_lit(&k, "dark") || eq_lit(&k, "midnight") {
            Some(Theme::Dark)
        } else {
            None
        }
    }

    pub open spec fn label_spec(self) -> Seq<char> {
        match self {
            Theme::Blue => "blue"@,
            Theme::Green => "green"@,
            Theme::Gray => "gray"@,
            Theme::Purple => "purple"@,
            Theme::Orange => "orange"@,
            Theme::Dark => "dark"@,
        }
    }

    /// The canonical theme name.
    pub fn label(self) -> (r: &'static str)
        ensures
            r@ == self.label_spec(),
    {
        match self {
            Theme::Blue => "blue",
            Theme::Green => "green",
            Theme::Gray => "gray",
            Theme::Purple => "purple",
            Theme::Orange => "orange",
            Theme::Dark => "dark",
        }
    }

    /// The palette colors (node fill, node stroke, accent fill, accent
    /// stroke, decision fill, decision stroke, text, edge).
    pub open spec fn palette_spec(self) -> Seq<Seq<char>> {
        match self {
            Theme::Blue => seq![
                "#DAE8FC"@, "#6C8EBF"@, "#1F6FB8"@, "#15527F"@,
                "#FFF2CC"@, "#D6B656"@, "#1F2A37"@, "#44515E"@,
            ],
            Theme::Green => seq![
                "#D5E8D4"@, "#82B366"@, "#2E7D32"@, "#1B5E20"@,
                "#FFF2CC"@, "#D6B656"@, "#1B3A1B"@, "#4A6B4A"@,
            ],
            Theme::Gray => seq![
                "#F5F5F5"@, "#999999"@, "#5A5A5A"@, "#333333"@,
                "#E8E8E8"@, "#999999"@, "#222222"@, "#666666"@,
            ],
            Theme::Purple => seq![
                "#E1D5E7"@, "#9673A6"@, "#6A1B9A"@, "#4A148C"@,
                "#F3E5F5"@, "#9673A6"@, "#2E1A33"@, "#6E5577"@,
            ],
            Theme::Orange => seq![
                "#FFE6CC"@, "#D79B00"@, "#E65100"@, "#BF360C"@,
                "#FFF2CC"@, "#D6B656"@, "#3A2410"@, "#8A5A2B"@,
            ],
            Theme::Dark => seq![
                "#2D3748"@, "#1A202C"@, "#3182CE"@, "#2B6CB0"@,
                "#4A5568"@, "#2D3748"@, "#F7FAFC"@, "#A0AEC0"@,
            ],
        }
    }

    /// The resolved color set of the theme.
    pub fn palette(self) -> (p: Palette)
        ensures
            palette_view(p) == self.palette_spec(),
    {
        let p = match self {
            Theme::Blue => Palette {
                node_fill: "#DAE8FC", node_stroke: "#6C8EBF",
                accent_fill: "#1F6FB8", accent_stroke: "#15527F",
                decision_fill: "#FFF2CC", decision_stroke: "#D6B656",
                text: "#1F2A37", edge: "#44515E",
            },
            Theme::Green => Palette {
                node_fill: "#D5E8D4", node_stroke: "#82B366",
                accent_fill: "#2E7D32", accent_stroke: "#1B5E20",
                decision_fill: "#FFF2CC", decision_stroke: "#D6B656",
                text: "#1B3A1B", edge: "#4A6B4A",
            },
            Theme::Gray => Palette {
                node_fill: "#F5F5F5", node_stroke: "#999999",
                accent_fill: "#5A5A5A", accent_stroke: "#333333",
                decision_fill: "#E8E8E8", decision_stroke: "#999999",
                text: "#222222", edge: "#666666",
            },
            Theme::Purple => Palette {
                node_fill: "#E1D5E7", node_stroke: "#9673A6",
                accent_fill: "#6A1B9A", accent_stroke: "#4A148C",
                decision_fill: "#F3E5F5", decision_stroke: "#9673A6",
                text: "#2E1A33", edge: "#6E5577",
            },
            Theme::Orange => Palette {
                node_fill: "#FFE6CC", node_stroke: "#D79B00",
                accent_fill: "#E65100", accent_stroke: "#BF360C",
                decision_fill: "#FFF2CC", decision_stroke: "#D6B656",
                text: "#3A2410", edge: "#8A5A2B",
            },
            Theme::Dark => Palette {
                node_fill: "#2D3748", node_stroke: "#1A202C",
                accent_fill: "#3182CE", accent_stroke: "#2B6CB0",
                decision_fill: "#4A5568", decision_stroke: "#2D3748",
                text: "#F7FAFC", edge: "#A0AEC0",
            },
        };
        assert(palette_view(p) =~= self.palette_spec());
        p
    }
}

} // verus!
