//! Editing operations on a [`Flowchart`] and a multi-page [`Document`].

use vstd::prelude::*;

use super::{
    find_layer, find_node, find_subgraph, first_index, layer_ids, lemma_first_index,
    lemma_first_index_push, node_ids, overlay, subgraph_ids, Arrow, ContainerKind, Decimal,
    Direction, Edge, EdgeRouting, Flowchart, Layer, LayoutKind, LineStyle, Node, Point, Shape,
    Style, Subgraph, Theme,
};
use crate::engine::kinds::palette_view;
use crate::error::{is_duplicate, is_invalid, is_not_found, quoted, quoted_name, FlowError};
use crate::text::{decimal, is_blank, owned, push_decimal, push_str, str_blank, str_eq};

verus! {

/// `"edge index <n>"`, the detail of an out-of-range edge error.
pub open spec fn edge_index_msg(index: nat) -> Seq<char> {
    "edge index "@ + decimal(index)
}

fn edge_index_error(index: usize) -> (e: FlowError)
    ensures
        e matches FlowError::NotFound(m) && m@ == edge_index_msg(index as nat),
{
    let mut m = owned("edge index ");
    push_decimal(&mut m, index);
    FlowError::NotFound(m)
}

fn node_not_found(id: &str) -> (e: FlowError)
    ensures
        e matches FlowError::NotFound(m) && m@ == quoted("node"@, id@),
{
    FlowError::NotFound(quoted_name("node", id))
}

/// Fill and stroke a theme gives to a node of `shape`: accent for
/// terminators, decision colors for diamonds, the base tint otherwise.
pub open spec fn theme_node_colors(t: Theme, shape: Shape) -> (Seq<char>, Seq<char>) {
    let p = t.palette_spec();
    match shape {
        Shape::Stadium | Shape::Circle | Shape::DoubleCircle => (p[2], p[3]),
        Shape::Diamond => (p[4], p[5]),
        _ => (p[0], p[1]),
    }
}

impl Node {
    /// `new` is `old` recolored by theme `t` (fill, stroke, text color).
    pub open spec fn themed(new: Node, old: Node, t: Theme) -> bool {
        &&& new == Node {
            style: Style {
                fill: new.style.fill,
                stroke: new.style.stroke,
                text_color: new.style.text_color,
                ..old.style
            },
            ..old
        }
        &&& new.style.fill matches Some(f) && f@ == theme_node_colors(t, old.shape).0
        &&& new.style.stroke matches Some(s) && s@ == theme_node_colors(t, old.shape).1
        &&& new.style.text_color matches Some(c) && c@ == t.palette_spec()[6]
    }
}

impl Edge {
    /// `new` is `old` recolored with the theme's edge color.
    pub open spec fn themed(new: Edge, old: Edge, t: Theme) -> bool {
        &&& new == Edge { color: new.color, ..old }
        &&& new.color matches Some(c) && c@ == t.palette_spec()[7]
    }
}

impl Flowchart {
    pub open spec fn node_index_spec(self, id: Seq<char>) -> Option<int> {
        first_index(node_ids(self.nodes@), id)
    }

    pub open spec fn has_node_spec(self, id: Seq<char>) -> bool {
        self.node_index_spec(id) is Some
    }

    /// Everything but the nodes is the same.
    pub open spec fn same_except_nodes(self, o: Flowchart) -> bool {
        &&& self.direction == o.direction
        &&& self.title == o.title
        &&& self.edges == o.edges
        &&& self.subgraphs == o.subgraphs
        &&& self.layout == o.layout
        &&& self.layers == o.layers
        &&& self.number_steps == o.number_steps
    }

    /// Everything but the edges is the same.
    pub open spec fn same_except_edges(self, o: Flowchart) -> bool {
        &&& self.direction == o.direction
        &&& self.title == o.title
        &&& self.nodes == o.nodes
        &&& self.subgraphs == o.subgraphs
        &&& self.layout == o.layout
        &&& self.layers == o.layers
        &&& self.number_steps == o.number_steps
    }

    /// `self` is `o` with node `i` replaced by `n`.
    pub open spec fn node_replaced(self, o: Flowchart, i: int, n: Node) -> bool {
        &&& self.same_except_nodes(o)
        &&& self.nodes@ == o.nodes@.update(i, n)
    }

    /// `self` is `o` with edge `i` replaced by `e`.
    pub open spec fn edge_replaced(self, o: Flowchart, i: int, e: Edge) -> bool {
        &&& self.same_except_edges(o)
        &&& self.edges@ == o.edges@.update(i, e)
    }

    /// An empty chart flowing in `direction`.
    pub open spec fn is_new(self, direction: Direction) -> bool {
        &&& self.direction == direction
        &&& self.title is None
        &&& self.nodes@.len() == 0
        &&& self.edges@.len() == 0
        &&& self.subgraphs@.len() == 0
        &&& self.layout == LayoutKind::Layered
        &&& self.layers@.len() == 0
        &&& !self.number_steps
    }

    /// An empty chart flowing in `direction`.
    pub fn new(direction: Direction) -> (r: Flowchart)
        ensures
            r.is_new(direction),
    {
        Flowchart {
            direction,
            title: None,
            nodes: Vec::new(),
            edges: Vec::new(),
            subgraphs: Vec::new(),
            layout: LayoutKind::Layered,
            layers: Vec::new(),
            number_steps: false,
        }
    }

    pub fn set_layout(&mut self, layout: LayoutKind)
        ensures
            *final(self) == (Flowchart { layout, ..*old(self) }),
    {
        self.layout = layout;
    }

    pub fn set_direction(&mut self, direction: Direction)
        ensures
            *final(self) == (Flowchart { direction, ..*old(self) }),
    {
        self.direction = direction;
    }

    /// Add a named layer, or update the label and visibility of the first
    /// layer with that id.
    pub fn add_layer(&mut self, id: &str, label: &str, visible: bool) -> (r: Result<(), FlowError>)
        ensures
            is_blank(id@) ==> is_invalid(r, "layer id must not be empty"@) && *final(self) == *old(self),
            !is_blank(id@) ==> r is Ok && final(self).nodes == old(self).nodes
                && final(self).edges == old(self).edges
                && final(self).subgraphs == old(self).subgraphs
                && final(self).direction == old(self).direction
                && final(self).title == old(self).title
                && final(self).layout == old(self).layout
                && final(self).number_steps == old(self).number_steps
                && match first_index(layer_ids(old(self).layers@), id@) {
                    Some(i) => final(self).layers@ == old(self).layers@.update(
                        i,
                        final(self).layers@[i],
                    ) && final(self).layers@[i].id == old(self).layers@[i].id
                        && final(self).layers@[i].label@ == label@
                        && final(self).layers@[i].visible == visible,
                    None => final(self).layers@.len() == old(self).layers@.len() + 1
                        && final(self).layers@.drop_last() == old(self).layers@
                        && final(self).layers@.last().id@ == id@
                        && final(self).layers@.last().label@ == label@
                        && final(self).layers@.last().visible == visible,
                },
    {
        if str_blank(id) {
            return Err(FlowError::InvalidInput(owned("layer id must not be empty")));
        }
        match find_layer(&self.layers, id) {
            Some(i) => {
                self.layers[i].label = owned(label);
                self.layers[i].visible = visible;
            },
            None => {
                self.layers.push(Layer { id: owned(id), label: owned(label), visible });
                assert(self.layers@.drop_last() =~= old(self).layers@);
            },
        }
        Ok(())
    }

    /// Assign a node to a layer (or clear with `None`). The layer must exist.
    pub fn set_node_layer(&mut self, id: &str, layer: Option<String>) -> (r: Result<
        (),
        FlowError,
    >)
        ensures
            match layer {
                Some(lid) if first_index(layer_ids(old(self).layers@), lid@) is None => is_not_found(r, quoted("layer"@, lid@)) && *final(self) == *old(self),
                _ => match old(self).node_index_spec(id@) {
                    None => is_not_found(r, quoted("node"@, id@)) && *final(self) == *old(self),
                    Some(i) => r is Ok && final(self).node_replaced(
                        *old(self),
                        i,
                        Node { layer, ..old(self).nodes@[i] },
                    ),
                },
            },
    {
        if let Some(lid) = &layer {
            if find_layer(&self.layers, lid.as_str()).is_none() {
                return Err(FlowError::NotFound(quoted_name("layer", lid.as_str())));
            }
        }
        match find_node(&self.nodes, id) {
            None => Err(node_not_found(id)),
            Some(idx) => {
                self.nodes[idx].layer = layer;
                Ok(())
            },
        }
    }

    /// Apply a named color palette to every node (fill, stroke, text color)
    /// and to every edge (its color). Returns the number of nodes
    /// restyled.
    pub fn apply_theme(&mut self, theme: Theme) -> (r: usize)
        ensures
            r == old(self).nodes@.len(),
            final(self).direction == old(self).direction,
            final(self).title == old(self).title,
            final(self).subgraphs == old(self).subgraphs,
            final(self).layout == old(self).layout,
            final(self).layers == old(self).layers,
            final(self).number_steps == old(self).number_steps,
            final(self).nodes@.len() == old(self).nodes@.len(),
            final(self).edges@.len() == old(self).edges@.len(),
            forall|i: int|
                0 <= i < old(self).nodes@.len() ==> Node::themed(
                    #[trigger] final(self).nodes@[i],
                    old(self).nodes@[i],
                    theme,
                ),
            forall|i: int|
                0 <= i < old(self).edges@.len() ==> Edge::themed(
                    #[trigger] final(self).edges@[i],
                    old(self).edges@[i],
                    theme,
                ),
    {
        let p = theme.palette();
        let ghost pv = palette_view(p);
        let mut i: usize = 0;
        while i < self.nodes.len()
            invariant
                i <= self.nodes@.len(),
                pv == theme.palette_spec(),
                pv == palette_view(p),
                self.nodes@.len() == old(self).nodes@.len(),
                self.edges == old(self).edges,
                self.direction == old(self).direction,
                self.title == old(self).title,
                self.subgraphs == old(self).subgraphs,
                self.layout == old(self).layout,
                self.layers == old(self).layers,
                self.number_steps == old(self).number_steps,
                forall|j: int|
                    0 <= j < i ==> Node::themed(#[trigger] self.nodes@[j], old(self).nodes@[j], theme),
                forall|j: int| i <= j < self.nodes@.len() ==> self.nodes@[j] == old(self).nodes@[j],
            decreases self.nodes@.len() - i,
        {
            let (fill, stroke) = match self.nodes[i].shape {
                Shape::Stadium | Shape::Circle | Shape::DoubleCircle => (p.accent_fill, p.accent_stroke),
                Shape::Diamond => (p.decision_fill, p.decision_stroke),
                _ => (p.node_fill, p.node_stroke),
            };
            self.nodes[i].style.fill = Some(owned(fill));
            self.nodes[i].style.stroke = Some(owned(stroke));
            self.nodes[i].style.text_color = Some(owned(p.text));
            i += 1;
        }
        let mut k: usize = 0;
        while k < self.edges.len()
            invariant
                k <= self.edges@.len(),
                pv == theme.palette_spec(),
                pv == palette_view(p),
                self.edges@.len() == old(self).edges@.len(),
                self.nodes@.len() == old(self).nodes@.len(),
                self.direction == old(self).direction,
                self.title == old(self).title,
                self.subgraphs == old(self).subgraphs,
                self.layout == old(self).layout,
                self.layers == old(self).layers,
                self.number_steps == old(self).number_steps,
                forall|j: int|
                    0 <= j < self.nodes@.len() ==> Node::themed(
                        #[trigger] self.nodes@[j],
                        old(self).nodes@[j],
                        theme,
                    ),
                forall|j: int|
                    0 <= j < k ==> Edge::themed(#[trigger] self.edges@[j], old(self).edges@[j], theme),
                forall|j: int| k <= j < self.edges@.len() ==> self.edges@[j] == old(self).edges@[j],
            decreases self.edges@.len() - k,
        {
            self.edges[k].color = Some(owned(p.edge));
            k += 1;
        }
        self.nodes.len()
    }

    /// Index of the first node with id `id`.
    pub fn node_index(&self, id: &str) -> (r: Option<usize>)
        ensures
            match r {
                Some(i) => self.node_index_spec(id@) == Some(i as int),
                None => self.node_index_spec(id@) is None,
            },
    {
        find_node(&self.nodes, id)
    }

    /// Whether a node with id `id` exists.
    pub fn has_node(&self, id: &str) -> (r: bool)
        ensures
            r == self.has_node_spec(id@),
    {
        find_node(&self.nodes, id).is_some()
    }

    /// Add a node. Errors if `id` is blank or already exists.
    pub fn add_node(&mut self, id: &str, label: &str, shape: Shape) -> (r: Result<(), FlowError>)
        ensures
            is_blank(id@) ==> is_invalid(r, "node id must not be empty"@) && *final(self) == *old(self),
            !is_blank(id@) && old(self).has_node_spec(id@) ==> is_duplicate(r, quoted("node"@, id@)) && *final(self) == *old(self),
            !is_blank(id@) && !old(self).has_node_spec(id@) ==> r is Ok
                && final(self).same_except_nodes(*old(self)) && final(self).nodes@.len()
                == old(self).nodes@.len() + 1 && final(self).nodes@.drop_last()
                == old(self).nodes@ && final(self).nodes@.last().is_fresh(id@, label@, shape),
    {
        if str_blank(id) {
            return Err(FlowError::InvalidInput(owned("node id must not be empty")));
        }
        if self.has_node(id) {
            return Err(FlowError::Duplicate(quoted_name("node", id)));
        }
        self.nodes.push(
            Node {
                id: owned(id),
                label: owned(label),
                shape,
                style: Style::empty(),
                image: None,
                stencil: None,
                pos: None,
                size: None,
                html: None,
                compartments: Vec::new(),
                layer: None,
            },
        );
        assert(self.nodes@.drop_last() =~= old(self).nodes@);
        Ok(())
    }

    /// Add a UML class node: a title plus ordered compartments (e.g.
    /// attributes then methods).
    pub fn add_class_node(&mut self, id: &str, name: &str, compartments: Vec<Vec<String>>) -> (r:
        Result<(), FlowError>)
        ensures
            is_blank(id@) ==> is_invalid(r, "node id must not be empty"@) && *final(self) == *old(self),
            !is_blank(id@) && old(self).has_node_spec(id@) ==> is_duplicate(r, quoted("node"@, id@)) && *final(self) == *old(self),
            !is_blank(id@) && !old(self).has_node_spec(id@) ==> r is Ok
                && final(self).same_except_nodes(*old(self)) && final(self).nodes@.len()
                == old(self).nodes@.len() + 1 && final(self).nodes@.drop_last()
                == old(self).nodes@ && final(self).nodes@.last().is_fresh_base(id@, name@, Shape::UmlClass)
                && final(self).nodes@.last().compartments
                == compartments,
    {
        self.add_node(id, name, Shape::UmlClass)?;
        let idx = self.nodes.len() - 1;
        self.nodes[idx].compartments = compartments;
        assert(self.nodes@.drop_last() =~= old(self).nodes@);
        Ok(())
    }

    /// Set (replace) a node's UML compartments.
    pub fn set_compartments(&mut self, id: &str, compartments: Vec<Vec<String>>) -> (r: Result<
        (),
        FlowError,
    >)
        ensures
            match old(self).node_index_spec(id@) {
                None => is_not_found(r, quoted("node"@, id@)) && *final(self) == *old(self),
                Some(i) => r is Ok && final(self).node_replaced(
                    *old(self),
                    i,
                    Node { compartments, ..old(self).nodes@[i] },
                ),
            },
    {
        match find_node(&self.nodes, id) {
            None => Err(node_not_found(id)),
            Some(idx) => {
                self.nodes[idx].compartments = compartments;
                Ok(())
            },
        }
    }

    /// Set (or, with `clear`, remove) a node's manual position/size override.
    /// Without `clear`, only the given parts change.
    pub fn move_node(&mut self, id: &str, pos: Option<Point>, size: Option<Point>, clear: bool) -> (r:
        Result<(), FlowError>)
        ensures
            match old(self).node_index_spec(id@) {
                None => is_not_found(r, quoted("node"@, id@)) && *final(self) == *old(self),
                Some(i) => r is Ok && final(self).node_replaced(
                    *old(self),
                    i,
                    if clear {
                        Node { pos: None, size: None, ..old(self).nodes@[i] }
                    } else {
                        Node {
                            pos: overlay(old(self).nodes@[i].pos, pos),
                            size: overlay(old(self).nodes@[i].size, size),
                            ..old(self).nodes@[i]
                        }
                    },
                ),
            },
    {
        match find_node(&self.nodes, id) {
            None => Err(node_not_found(id)),
            Some(idx) => {
                if clear {
                    self.nodes[idx].pos = None;
                    self.nodes[idx].size = None;
                    assert(self.nodes@ =~= old(self).nodes@.update(
                        idx as int,
                        Node { pos: None, size: None, ..old(self).nodes@[idx as int] },
                    ));
                    return Ok(());
                }
                if pos.is_some() {
                    self.nodes[idx].pos = pos;
                }
                if size.is_some() {
                    self.nodes[idx].size = size;
                }
                assert(self.nodes@ =~= old(self).nodes@.update(
                    idx as int,
                    Node {
                        pos: overlay(old(self).nodes@[idx as int].pos, pos),
                        size: overlay(old(self).nodes@[idx as int].size, size),
                        ..old(self).nodes@[idx as int]
                    },
                ));
                Ok(())
            },
        }
    }

    /// Set (or clear) a node's image.
    pub fn set_node_image(&mut self, id: &str, image: Option<String>) -> (r: Result<(), FlowError>)
        ensures
            match old(self).node_index_spec(id@) {
                None => is_not_found(r, quoted("node"@, id@)) && *final(self) == *old(self),
                Some(i) => r is Ok && final(self).node_replaced(
                    *old(self),
                    i,
                    Node { image, ..old(self).nodes@[i] },
                ),
            },
    {
        match find_node(&self.nodes, id) {
            None => Err(node_not_found(id)),
            Some(idx) => {
                self.nodes[idx].image = image;
                Ok(())
            },
        }
    }

    /// Set (or clear) a node's stencil.
    pub fn set_node_stencil(&mut self, id: &str, stencil: Option<String>) -> (r: Result<
        (),
        FlowError,
    >)
        ensures
            match old(self).node_index_spec(id@) {
                None => is_not_found(r, quoted("node"@, id@)) && *final(self) == *old(self),
                Some(i) => r is Ok && final(self).node_replaced(
                    *old(self),
                    i,
                    Node { stencil, ..old(self).nodes@[i] },
                ),
            },
    {
        match find_node(&self.nodes, id) {
            None => Err(node_not_found(id)),
            Some(idx) => {
                self.nodes[idx].stencil = stencil;
                Ok(())
            },
        }
    }

    /// Mark a node's label as rich HTML (or clear the flag).
    pub fn set_node_html(&mut self, id: &str, html: Option<bool>) -> (r: Result<(), FlowError>)
        ensures
            match old(self).node_index_spec(id@) {
                None => is_not_found(r, quoted("node"@, id@)) && *final(self) == *old(self),
                Some(i) => r is Ok && final(self).node_replaced(
                    *old(self),
                    i,
                    Node { html, ..old(self).nodes@[i] },
                ),
            },
    {
        match find_node(&self.nodes, id) {
            None => Err(node_not_found(id)),
            Some(idx) => {
                self.nodes[idx].html = html;
                Ok(())
            },
        }
    }

    /// Update a node's label and/or shape in place.
    pub fn update_node(&mut self, id: &str, label: Option<&str>, shape: Option<Shape>) -> (r:
        Result<(), FlowError>)
        ensures
            match old(self).node_index_spec(id@) {
                None => is_not_found(r, quoted("node"@, id@)) && *final(self) == *old(self),
                Some(i) => r is Ok && final(self).same_except_nodes(*old(self))
                    && final(self).nodes@ == old(self).nodes@.update(i, final(self).nodes@[i])
                    && final(self).nodes@[i] == (Node {
                        label: final(self).nodes@[i].label,
                        shape: overlay(Some(old(self).nodes@[i].shape), shape)->0,
                        ..old(self).nodes@[i]
                    }) && final(self).nodes@[i].label@ == match label {
                        Some(l) => l@,
                        None => old(self).nodes@[i].label@,
                    } && (label is None ==> final(self).nodes@[i].label
                        == old(self).nodes@[i].label),
            },
    {
        match find_node(&self.nodes, id) {
            None => Err(node_not_found(id)),
            Some(idx) => {
                if let Some(l) = label {
                    self.nodes[idx].label = owned(l);
                }
                if let Some(s) = shape {
                    self.nodes[idx].shape = s;
                }
                Ok(())
            },
        }
    }

    /// Merge the provided style fields into a node's style.
    pub fn style_node(&mut self, id: &str, style: Style) -> (r: Result<(), FlowError>)
        ensures
            match old(self).node_index_spec(id@) {
                None => is_not_found(r, quoted("node"@, id@)) && *final(self) == *old(self),
                Some(i) => r is Ok && final(self).node_replaced(
                    *old(self),
                    i,
                    Node { style: old(self).nodes@[i].style.merge_spec(style), ..old(self).nodes@[i] },
                ),
            },
    {
        match find_node(&self.nodes, id) {
            None => Err(node_not_found(id)),
            Some(idx) => {
                self.nodes[idx].style.merge(style);
                Ok(())
            },
        }
    }
}


/// Keep an edge that does not touch node `id`.
pub open spec fn keeps_edge(id: Seq<char>) -> spec_fn(Edge) -> bool {
    |e: Edge| e.from@ != id && e.to@ != id
}

/// Keep a container member other than `id`.
pub open spec fn keeps_member(id: Seq<char>) -> spec_fn(String) -> bool {
    |m: String| m@ != id
}

/// Position of the first id in `ids` that is not among `known`.
pub open spec fn first_unknown(ids: Seq<Seq<char>>, known: Seq<Seq<char>>) -> Option<int>
    decreases ids.len(),
{
    if ids.len() == 0 {
        None
    } else {
        match first_unknown(ids.drop_last(), known) {
            Some(i) => Some(i),
            None => if first_index(known, ids.last()) is None {
                Some(ids.len() - 1)
            } else {
                None
            },
        }
    }
}

pub open spec fn string_views(v: Seq<String>) -> Seq<Seq<char>> {
    v.map_values(|s: String| s@)
}

proof fn lemma_skip_succ<A>(a: Seq<A>, b: Seq<A>, i: int, j: int)
    requires
        0 <= i < a.len(),
        0 <= j <= b.len(),
        a.skip(i) == b.skip(j),
    ensures
        a.skip(i + 1) == b.skip(j + 1),
{
    assert(a.skip(i + 1) =~= a.skip(i).skip(1));
    assert(b.skip(j + 1) =~= b.skip(j).skip(1));
}

proof fn lemma_filter_step<A>(s: Seq<A>, j: int, p: spec_fn(A) -> bool)
    requires
        0 <= j < s.len(),
    ensures
        s.take(j + 1).filter(p) == (if p(s[j]) {
            s.take(j).filter(p).push(s[j])
        } else {
            s.take(j).filter(p)
        }),
{
    reveal(Seq::filter);
    assert(s.take(j + 1).drop_last() =~= s.take(j));
}

/// Remove, in place, the members equal to `id`.
fn retain_members(members: &mut Vec<String>, id: &str)
    ensures
        final(members)@ == old(members)@.filter(keeps_member(id@)),
{
    let ghost orig = members@;
    let mut i: usize = 0;
    let ghost mut j: int = 0;
    assert(orig.take(0).filter(keeps_member(id@)) =~= Seq::<String>::empty()) by {
        reveal(Seq::filter);
    }
    assert(orig.skip(0) =~= orig);
    while i < members.len()
        invariant
            0 <= i <= j <= orig.len(),
            members@.len() - i == orig.len() - j,
            members@.take(i as int) == orig.take(j).filter(keeps_member(id@)),
            members@.skip(i as int) == orig.skip(j),
        decreases members@.len() - i,
    {
        proof {
            assert(orig[j] == members@.skip(i as int)[0]);
            lemma_filter_step(orig, j, keeps_member(id@));
        }
        if str_eq(members[i].as_str(), id) {
            let ghost before = members@;
            members.remove(i);
            proof {
                assert(members@.take(i as int) =~= before.take(i as int));
                assert(members@.skip(i as int) =~= before.skip(i + 1));
                lemma_skip_succ(before, orig, i as int, j);
                j = j + 1;
            }
        } else {
            proof {
                assert(members@.take(i + 1) =~= members@.take(i as int).push(orig[j]));
                lemma_skip_succ(members@, orig, i as int, j);
                j = j + 1;
            }
            i += 1;
        }
    }
    assert(members@.take(i as int) =~= members@);
    assert(orig.take(j) =~= orig);
}

impl Flowchart {
    /// The node an `add_node` request creates.
    pub open spec fn requested_node(
        n: Node,
        id: Seq<char>,
        label: Option<String>,
        shape: Shape,
        image: Option<String>,
        stencil: Option<String>,
        html: Option<bool>,
        compartments: Option<Vec<Vec<String>>>,
        style: Style,
    ) -> bool {
        &&& n.id@ == id
        &&& n.label@ == (match label {
            Some(l) => l@,
            None => id,
        })
        &&& n.shape == shape
        &&& n.style == style
        &&& n.image == image
        &&& n.stencil == stencil
        &&& n.html == html
        &&& n.compartments@ == (match compartments {
            Some(c) => c@,
            None => Seq::empty(),
        })
        &&& n.pos is None
        &&& n.size is None
        &&& n.layer is None
    }

    proof fn lemma_last_found(self, id: Seq<char>)
        requires
            self.nodes@.len() > 0,
            self.nodes@.last().id@ == id,
            first_index(node_ids(self.nodes@.drop_last()), id) is None,
        ensures
            self.node_index_spec(id) == Some(self.nodes@.len() - 1),
    {
        let ids = node_ids(self.nodes@);
        assert(ids.drop_last() =~= node_ids(self.nodes@.drop_last()));
        assert(ids =~= ids.drop_last().push(id));
        lemma_first_index_push(ids.drop_last(), id, id);
    }

    /// Add a node with its optional image, stencil, rich-text flag, UML
    /// compartments and style. The label defaults to the id.
    pub fn add_node_full(
        &mut self,
        id: &str,
        label: Option<String>,
        shape: Shape,
        image: Option<String>,
        stencil: Option<String>,
        html: Option<bool>,
        compartments: Option<Vec<Vec<String>>>,
        style: Style,
    ) -> (r: Result<(), FlowError>)
        ensures
            is_blank(id@) ==> is_invalid(r, "node id must not be empty"@) && *final(self) == *old(self),
            !is_blank(id@) && old(self).has_node_spec(id@) ==> is_duplicate(r, quoted("node"@, id@))
                && *final(self) == *old(self),
            !is_blank(id@) && !old(self).has_node_spec(id@) ==> r is Ok && final(self).same_except_nodes(
                *old(self),
            ) && final(self).nodes@.len() == old(self).nodes@.len() + 1 && final(self).nodes@.drop_last()
                == old(self).nodes@ && Flowchart::requested_node(
                final(self).nodes@.last(),
                id@,
                label,
                shape,
                image,
                stencil,
                html,
                compartments,
                style,
            ),
    {
        let text = match &label {
            Some(l) => crate::text::copy_string(l),
            None => owned(id),
        };
        self.add_node(id, text.as_str(), shape)?;
        let ghost base = *old(self);
        let ghost n = self.nodes@.len() - 1;
        proof {
            self.lemma_last_found(id@);
        }
        if image.is_some() {
            let ghost a = *self;
            let _ = self.set_node_image(id, image);
            proof { Flowchart::lemma_replace_last(base, a, *self, n, id@); }
        }
        if stencil.is_some() {
            let ghost a = *self;
            let _ = self.set_node_stencil(id, stencil);
            proof { Flowchart::lemma_replace_last(base, a, *self, n, id@); }
        }
        if html.is_some() {
            let ghost a = *self;
            let _ = self.set_node_html(id, html);
            proof { Flowchart::lemma_replace_last(base, a, *self, n, id@); }
        }
        match compartments {
            Some(c) => {
                let ghost a = *self;
                let _ = self.set_compartments(id, c);
                proof { Flowchart::lemma_replace_last(base, a, *self, n, id@); }
            },
            None => {},
        }
        if !style.is_empty() {
            let ghost a = *self;
            let _ = self.style_node(id, style);
            proof { Flowchart::lemma_replace_last(base, a, *self, n, id@); }
        }
        proof {
            assert(Style::empty_spec().merge_spec(style) == style);
            let last = self.nodes@[n];
            assert(last.id@ == id@);
            assert(last.shape == shape);
            assert(last.style == style);
            assert(last.image == image);
            assert(last.stencil == stencil);
            assert(last.html == html);
            assert(last.pos is None && last.size is None && last.layer is None);
            assert(last.label@ == (match label {
                Some(l) => l@,
                None => id@,
            }));
            assert(last.compartments@ =~= (match compartments {
                Some(c) => c@,
                None => Seq::empty(),
            }));
            assert(self.same_except_nodes(base));
            assert(self.nodes@.drop_last() == base.nodes@);
        }
        Ok(())
    }

    /// Replacing the last node by one with the same id keeps it findable
    /// and keeps everything else.
    proof fn lemma_replace_last(base: Flowchart, a: Flowchart, b: Flowchart, n: int, id: Seq<char>)
        requires
            n == base.nodes@.len(),
            a.same_except_nodes(base),
            a.nodes@.len() == n + 1,
            a.nodes@.drop_last() == base.nodes@,
            a.node_index_spec(id) == Some(n),
            a.nodes@[n].id@ == id,
            b.same_except_nodes(a),
            b.nodes@ == a.nodes@.update(n, b.nodes@[n]),
            b.nodes@[n].id == a.nodes@[n].id,
        ensures
            b.same_except_nodes(base),
            b.nodes@.len() == n + 1,
            b.nodes@.drop_last() == base.nodes@,
            b.node_index_spec(id) == Some(n),
            b.nodes@[n].id@ == id,
    {
        assert(b.nodes@.drop_last() =~= a.nodes@.drop_last());
        assert(node_ids(b.nodes@) =~= node_ids(a.nodes@));
    }

    /// The edge an `add_edge` request creates.
    pub open spec fn requested_edge(
        e: Edge,
        from: Seq<char>,
        to: Seq<char>,
        label: Option<String>,
        line: LineStyle,
        arrow: bool,
        start_arrow: Option<Arrow>,
        end_arrow: Option<Arrow>,
        routing: Option<EdgeRouting>,
        color: Option<String>,
        waypoints: Option<Vec<Point>>,
        exit: Option<Point>,
        entry: Option<Point>,
    ) -> bool {
        &&& e.from@ == from
        &&& e.to@ == to
        &&& e.label == label
        &&& e.line == line
        &&& e.arrow == arrow
        &&& e.start_arrow == start_arrow
        &&& e.end_arrow == end_arrow
        &&& e.routing == routing
        &&& e.color == color
        &&& e.waypoints@ == (match waypoints {
            Some(w) => w@,
            None => Seq::empty(),
        })
        &&& e.exit == exit
        &&& e.entry == entry
        &&& e.label_pos is None
        &&& e.label_offset is None
        &&& e.label_bg is None
        &&& e.label_border is None
    }

    /// Add an edge with its optional arrowheads, routing, color, waypoints
    /// and fixed ports; returns its index.
    pub fn add_edge_full(
        &mut self,
        from: &str,
        to: &str,
        label: Option<String>,
        line: LineStyle,
        arrow: bool,
        start_arrow: Option<Arrow>,
        end_arrow: Option<Arrow>,
        routing: Option<EdgeRouting>,
        color: Option<String>,
        waypoints: Option<Vec<Point>>,
        exit: Option<Point>,
        entry: Option<Point>,
    ) -> (r: Result<usize, FlowError>)
        ensures
            !old(self).has_node_spec(from@) ==> is_not_found(r, quoted("node"@, from@))
                && *final(self) == *old(self),
            old(self).has_node_spec(from@) && !old(self).has_node_spec(to@) ==> is_not_found(
                r,
                quoted("node"@, to@),
            ) && *final(self) == *old(self),
            old(self).has_node_spec(from@) && old(self).has_node_spec(to@) ==> r == Ok::<
                usize,
                FlowError,
            >(old(self).edges@.len() as usize) && final(self).same_except_edges(*old(self))
                && final(self).edges@.len() == old(self).edges@.len() + 1
                && final(self).edges@.drop_last() == old(self).edges@
                && Flowchart::requested_edge(
                final(self).edges@.last(),
                from@,
                to@,
                label,
                line,
                arrow,
                start_arrow,
                end_arrow,
                routing,
                color,
                waypoints,
                exit,
                entry,
            ),
    {
        let count = self.edges.len();
        let idx = self.add_edge(from, to, label, line, arrow)?;
        let ghost base = *old(self);
        if start_arrow.is_some() || end_arrow.is_some() || routing.is_some() || color.is_some() {
            let ghost a = *self;
            let _ = self.style_edge(idx, start_arrow, end_arrow, routing, color);
            assert(self.edges@.drop_last() =~= a.edges@.drop_last());
        }
        if exit.is_some() || entry.is_some() || waypoints.is_some() {
            let ghost a = *self;
            let _ = self.route_edge(idx, waypoints, exit, entry, false);
            assert(self.edges@.drop_last() =~= a.edges@.drop_last());
        }
        assert(self.edges@.drop_last() =~= base.edges@);
        proof {
            let e = self.edges@.last();
            assert(e.from@ == from@ && e.to@ == to@);
            assert(e.label == label && e.line == line && e.arrow == arrow);
            assert(e.start_arrow == start_arrow);
            assert(e.end_arrow == end_arrow);
            assert(e.routing == routing && e.color == color);
            assert(e.exit == exit && e.entry == entry);
            assert(e.waypoints@ =~= (match waypoints {
                Some(w) => w@,
                None => Seq::empty(),
            }));
            assert(self.same_except_edges(base));
        }
        Ok(idx)
    }
}

impl Flowchart {
    /// Remove a node, every edge touching it, and its container memberships.
    /// Returns the number of edges removed.
    pub fn remove_node(&mut self, id: &str) -> (r: Result<usize, FlowError>)
        ensures
            match old(self).node_index_spec(id@) {
                None => is_not_found(r, quoted("node"@, id@)) && *final(self) == *old(self),
                Some(i) => {
                    &&& r == Ok::<usize, FlowError>(
                        (old(self).edges@.len() - final(self).edges@.len()) as usize,
                    )
                    &&& final(self).nodes@ == old(self).nodes@.remove(i)
                    &&& final(self).edges@ == old(self).edges@.filter(keeps_edge(id@))
                    &&& final(self).subgraphs@.len() == old(self).subgraphs@.len()
                    &&& forall|k: int|
                        0 <= k < old(self).subgraphs@.len() ==> (#[trigger] final(self).subgraphs@[k])
                            == (Subgraph {
                            members: final(self).subgraphs@[k].members,
                            ..old(self).subgraphs@[k]
                        }) && final(self).subgraphs@[k].members@
                            == old(self).subgraphs@[k].members@.filter(keeps_member(id@))
                    &&& final(self).direction == old(self).direction
                    &&& final(self).title == old(self).title
                    &&& final(self).layout == old(self).layout
                    &&& final(self).layers == old(self).layers
                    &&& final(self).number_steps == old(self).number_steps
                },
            },
    {
        let idx = match find_node(&self.nodes, id) {
            None => {
                return Err(node_not_found(id));
            },
            Some(idx) => idx,
        };
        self.nodes.remove(idx);
        let before = self.edges.len();
        // Edges touching the node.
        let ghost orig = self.edges@;
        let mut i: usize = 0;
        let ghost mut j: int = 0;
        assert(orig.take(0).filter(keeps_edge(id@)) =~= Seq::<Edge>::empty()) by {
            reveal(Seq::filter);
        }
        assert(orig.skip(0) =~= orig);
        while i < self.edges.len()
            invariant
                0 <= i <= j <= orig.len(),
                self.edges@.len() - i == orig.len() - j,
                self.edges@.take(i as int) == orig.take(j).filter(keeps_edge(id@)),
                self.edges@.skip(i as int) == orig.skip(j),
                self.nodes@ == old(self).nodes@.remove(idx as int),
                before == old(self).edges@.len(),
                self.subgraphs == old(self).subgraphs,
                self.direction == old(self).direction,
                self.title == old(self).title,
                self.layout == old(self).layout,
                self.layers == old(self).layers,
                self.number_steps == old(self).number_steps,
                orig == old(self).edges@,
            decreases self.edges@.len() - i,
        {
            proof {
                assert(orig[j] == self.edges@.skip(i as int)[0]);
                lemma_filter_step(orig, j, keeps_edge(id@));
            }
            let touches = str_eq(self.edges[i].from.as_str(), id) || str_eq(
                self.edges[i].to.as_str(),
                id,
            );
            if touches {
                let ghost before = self.edges@;
                self.edges.remove(i);
                proof {
                    assert(self.edges@.take(i as int) =~= before.take(i as int));
                    assert(self.edges@.skip(i as int) =~= before.skip(i + 1));
                    lemma_skip_succ(before, orig, i as int, j);
                    j = j + 1;
                }
            } else {
                proof {
                    assert(self.edges@.take(i + 1) =~= self.edges@.take(i as int).push(orig[j]));
                    lemma_skip_succ(self.edges@, orig, i as int, j);
                    j = j + 1;
                }
                i += 1;
            }
        }
        assert(self.edges@.take(i as int) =~= self.edges@);
        assert(orig.take(j) =~= orig);
        // Container memberships.
        let mut k: usize = 0;
        while k < self.subgraphs.len()
            invariant
                k <= self.subgraphs@.len(),
                self.subgraphs@.len() == old(self).subgraphs@.len(),
                self.edges@ == old(self).edges@.filter(keeps_edge(id@)),
                self.nodes@ == old(self).nodes@.remove(idx as int),
                before == old(self).edges@.len(),
                self.direction == old(self).direction,
                self.title == old(self).title,
                self.layout == old(self).layout,
                self.layers == old(self).layers,
                self.number_steps == old(self).number_steps,
                forall|m: int|
                    0 <= m < k ==> (#[trigger] self.subgraphs@[m]) == (Subgraph {
                        members: self.subgraphs@[m].members,
                        ..old(self).subgraphs@[m]
                    }) && self.subgraphs@[m].members@ == old(self).subgraphs@[m].members@.filter(
                        keeps_member(id@),
                    ),
                forall|m: int| k <= m < self.subgraphs@.len() ==> self.subgraphs@[m] == old(
                    self,
                ).subgraphs@[m],
            decreases self.subgraphs@.len() - k,
        {
            retain_members(&mut self.subgraphs[k].members, id);
            k += 1;
        }
        proof {
            lemma_filter_len_le(old(self).edges@, keeps_edge(id@));
        }
        Ok(before - self.edges.len())
    }

    /// Add an edge. Both endpoints must exist. Returns the new edge's index.
    pub fn add_edge(
        &mut self,
        from: &str,
        to: &str,
        label: Option<String>,
        line: LineStyle,
        arrow: bool,
    ) -> (r: Result<usize, FlowError>)
        ensures
            !old(self).has_node_spec(from@) ==> is_not_found(r, quoted("node"@, from@))
                && *final(self) == *old(self),
            old(self).has_node_spec(from@) && !old(self).has_node_spec(to@) ==> is_not_found(
                r,
                quoted("node"@, to@),
            ) && *final(self) == *old(self),
            old(self).has_node_spec(from@) && old(self).has_node_spec(to@) ==> r == Ok::<
                usize,
                FlowError,
            >(old(self).edges@.len() as usize) && final(self).same_except_edges(*old(self))
                && final(self).edges@.len() == old(self).edges@.len() + 1
                && final(self).edges@.drop_last() == old(self).edges@
                && final(self).edges@.last().is_fresh(from@, to@, label, line, arrow),
    {
        if !self.has_node(from) {
            return Err(node_not_found(from));
        }
        if !self.has_node(to) {
            return Err(node_not_found(to));
        }
        self.edges.push(
            Edge {
                from: owned(from),
                to: owned(to),
                label,
                line,
                arrow,
                end_arrow: None,
                start_arrow: None,
                routing: None,
                color: None,
                waypoints: Vec::new(),
                exit: None,
                entry: None,
                label_pos: None,
                label_offset: None,
                label_bg: None,
                label_border: None,
            },
        );
        assert(self.edges@.drop_last() =~= old(self).edges@);
        Ok(self.edges.len() - 1)
    }

    /// Set arrowheads / routing / color on an existing edge (set fields only).
    pub fn style_edge(
        &mut self,
        index: usize,
        start_arrow: Option<Arrow>,
        end_arrow: Option<Arrow>,
        routing: Option<EdgeRouting>,
        color: Option<String>,
    ) -> (r: Result<(), FlowError>)
        ensures
            index >= old(self).edges@.len() ==> is_not_found(r, edge_index_msg(index as nat))
                && *final(self) == *old(self),
            index < old(self).edges@.len() ==> r is Ok && final(self).edge_replaced(
                *old(self),
                index as int,
                old(self).edges@[index as int].styled(start_arrow, end_arrow, routing, color),
            ),
    {
        if index >= self.edges.len() {
            return Err(edge_index_error(index));
        }
        if start_arrow.is_some() {
            self.edges[index].start_arrow = start_arrow;
        }
        if end_arrow.is_some() {
            self.edges[index].end_arrow = end_arrow;
        }
        if routing.is_some() {
            self.edges[index].routing = routing;
        }
        if color.is_some() {
            self.edges[index].color = color;
        }
        assert(self.edges@ =~= old(self).edges@.update(
            index as int,
            old(self).edges@[index as int].styled(start_arrow, end_arrow, routing, color),
        ));
        Ok(())
    }

    /// Update an edge's label and/or line style (set fields only).
    pub fn update_edge(&mut self, index: usize, label: Option<String>, line: Option<LineStyle>) -> (r:
        Result<(), FlowError>)
        ensures
            index >= old(self).edges@.len() ==> is_not_found(r, edge_index_msg(index as nat))
                && *final(self) == *old(self),
            index < old(self).edges@.len() ==> r is Ok && final(self).edge_replaced(
                *old(self),
                index as int,
                old(self).edges@[index as int].updated(label, line),
            ),
    {
        if index >= self.edges.len() {
            return Err(edge_index_error(index));
        }
        if label.is_some() {
            self.edges[index].label = label;
        }
        if let Some(l) = line {
            self.edges[index].line = l;
        }
        assert(self.edges@ =~= old(self).edges@.update(
            index as int,
            old(self).edges@[index as int].updated(label, line),
        ));
        Ok(())
    }

    /// Set manual waypoints and/or fixed exit/entry ports on an edge. With
    /// `clear`, all three are reset to automatic.
    pub fn route_edge(
        &mut self,
        index: usize,
        waypoints: Option<Vec<Point>>,
        exit: Option<Point>,
        entry: Option<Point>,
        clear: bool,
    ) -> (r: Result<(), FlowError>)
        ensures
            index >= old(self).edges@.len() ==> is_not_found(r, edge_index_msg(index as nat))
                && *final(self) == *old(self),
            index < old(self).edges@.len() ==> r is Ok && final(self).same_except_edges(*old(self))
                && final(self).edges@ == old(self).edges@.update(
                index as int,
                final(self).edges@[index as int],
            ) && if clear {
                &&& final(self).edges@[index as int] == (Edge {
                    waypoints: final(self).edges@[index as int].waypoints,
                    exit: None,
                    entry: None,
                    ..old(self).edges@[index as int]
                })
                &&& final(self).edges@[index as int].waypoints@.len() == 0
            } else {
                final(self).edges@[index as int] == (Edge {
                    waypoints: match waypoints {
                        Some(w) => w,
                        None => old(self).edges@[index as int].waypoints,
                    },
                    exit: overlay(old(self).edges@[index as int].exit, exit),
                    entry: overlay(old(self).edges@[index as int].entry, entry),
                    ..old(self).edges@[index as int]
                })
            },
    {
        if index >= self.edges.len() {
            return Err(edge_index_error(index));
        }
        if clear {
            self.edges[index].waypoints.clear();
            self.edges[index].exit = None;
            self.edges[index].entry = None;
            return Ok(());
        }
        if let Some(w) = waypoints {
            self.edges[index].waypoints = w;
        }
        if exit.is_some() {
            self.edges[index].exit = exit;
        }
        if entry.is_some() {
            self.edges[index].entry = entry;
        }
        Ok(())
    }

    /// Set edge label placement/style (set fields only).
    pub fn label_edge(
        &mut self,
        index: usize,
        pos: Option<Decimal>,
        offset: Option<Decimal>,
        bg: Option<String>,
        border: Option<String>,
    ) -> (r: Result<(), FlowError>)
        ensures
            index >= old(self).edges@.len() ==> is_not_found(r, edge_index_msg(index as nat))
                && *final(self) == *old(self),
            index < old(self).edges@.len() ==> r is Ok && final(self).edge_replaced(
                *old(self),
                index as int,
                old(self).edges@[index as int].label_styled(pos, offset, bg, border),
            ),
    {
        if index >= self.edges.len() {
            return Err(edge_index_error(index));
        }
        if pos.is_some() {
            self.edges[index].label_pos = pos;
        }
        if offset.is_some() {
            self.edges[index].label_offset = offset;
        }
        if bg.is_some() {
            self.edges[index].label_bg = bg;
        }
        if border.is_some() {
            self.edges[index].label_border = border;
        }
        assert(self.edges@ =~= old(self).edges@.update(
            index as int,
            old(self).edges@[index as int].label_styled(pos, offset, bg, border),
        ));
        Ok(())
    }

    /// Remove the edge at `index`.
    pub fn remove_edge(&mut self, index: usize) -> (r: Result<(), FlowError>)
        ensures
            index >= old(self).edges@.len() ==> is_not_found(r, edge_index_msg(index as nat))
                && *final(self) == *old(self),
            index < old(self).edges@.len() ==> r is Ok && final(self).same_except_edges(
                *old(self),
            ) && final(self).edges@ == old(self).edges@.remove(index as int),
    {
        if index >= self.edges.len() {
            return Err(edge_index_error(index));
        }
        self.edges.remove(index);
        Ok(())
    }

    pub open spec fn has_subgraph_spec(self, id: Seq<char>) -> bool {
        first_index(subgraph_ids(self.subgraphs@), id) is Some
    }

    /// Add a container. The id must be new; every member and the optional
    /// parent must exist.
    pub fn add_subgraph(
        &mut self,
        id: &str,
        label: &str,
        members: Vec<String>,
        kind: ContainerKind,
        orientation: Option<String>,
        parent: Option<String>,
    ) -> (r: Result<(), FlowError>)
        ensures
            ({
                let unknown = first_unknown(string_views(members@), node_ids(old(self).nodes@));
                if old(self).has_subgraph_spec(id@) {
                    is_duplicate(r, quoted("subgraph"@, id@)) && *final(self) == *old(self)
                } else if unknown is Some {
                    is_not_found(r, quoted("node"@, members@[unknown->0]@)) && *final(self)
                        == *old(self)
                } else if parent is Some && !old(self).has_subgraph_spec(parent->0@) {
                    is_not_found(r, quoted("parent container"@, parent->0@)) && *final(self)
                        == *old(self)
                } else {
                    &&& r is Ok
                    &&& final(self).nodes == old(self).nodes
                    &&& final(self).edges == old(self).edges
                    &&& final(self).direction == old(self).direction
                    &&& final(self).title == old(self).title
                    &&& final(self).layout == old(self).layout
                    &&& final(self).layers == old(self).layers
                    &&& final(self).number_steps == old(self).number_steps
                    &&& final(self).subgraphs@.len() == old(self).subgraphs@.len() + 1
                    &&& final(self).subgraphs@.drop_last() == old(self).subgraphs@
                    &&& final(self).subgraphs@.last().id@ == id@
                    &&& final(self).subgraphs@.last().label@ == label@
                    &&& final(self).subgraphs@.last().members == members
                    &&& final(self).subgraphs@.last().kind == kind
                    &&& final(self).subgraphs@.last().orientation == orientation
                    &&& final(self).subgraphs@.last().parent == parent
                }
            }),
    {
        if find_subgraph(&self.subgraphs, id).is_some() {
            return Err(FlowError::Duplicate(quoted_name("subgraph", id)));
        }
        let mut i: usize = 0;
        while i < members.len()
            invariant
                i <= members@.len(),
                *self == *old(self),
                !old(self).has_subgraph_spec(id@),
                first_unknown(string_views(members@).take(i as int), node_ids(self.nodes@)) is None,
            decreases members@.len() - i,
        {
            proof {
                assert(string_views(members@).take(i + 1).drop_last() =~= string_views(
                    members@,
                ).take(i as int));
            }
            if !self.has_node(members[i].as_str()) {
                proof {
                    assert(string_views(members@)[i as int] == members@[i as int]@);
                    lemma_first_unknown_prefix(string_views(members@), node_ids(self.nodes@), i as int);
                }
                return Err(node_not_found(members[i].as_str()));
            }
            i += 1;
        }
        assert(string_views(members@).take(members@.len() as int) =~= string_views(members@));
        if let Some(p) = &parent {
            if find_subgraph(&self.subgraphs, p.as_str()).is_none() {
                return Err(FlowError::NotFound(quoted_name("parent container", p.as_str())));
            }
        }
        self.subgraphs.push(
            Subgraph { id: owned(id), label: owned(label), members, kind, orientation, parent },
        );
        assert(self.subgraphs@.drop_last() =~= old(self).subgraphs@);
        Ok(())
    }
}

proof fn lemma_filter_len_le<A>(s: Seq<A>, p: spec_fn(A) -> bool)
    ensures
        s.filter(p).len() <= s.len(),
{
    s.lemma_filter_len(p);
}

/// A prefix with no unknown id, followed by an unknown id at `i`, puts the
/// first unknown id at `i`.
proof fn lemma_first_unknown_prefix(ids: Seq<Seq<char>>, known: Seq<Seq<char>>, i: int)
    requires
        0 <= i < ids.len(),
        first_unknown(ids.take(i), known) is None,
        first_index(known, ids[i]) is None,
    ensures
        first_unknown(ids, known) == Some(i),
    decreases ids.len(),
{
    if i == ids.len() - 1 {
        assert(ids.drop_last() =~= ids.take(i));
    } else {
        assert(ids.drop_last().take(i) =~= ids.take(i));
        lemma_first_unknown_prefix(ids.drop_last(), known, i);
    }
}

/// A multi-page flowchart document. Page 0 always exists.
#[derive(Debug, Clone)]
pub struct Document {
    pub pages: Vec<Page>,
    pub current: usize,
}

/// A named page wrapping one flowchart.
#[derive(Debug, Clone)]
pub struct Page {
    pub name: String,
    pub chart: Flowchart,
}

impl Document {
    /// The selected page exists.
    pub open spec fn wf(self) -> bool {
        self.current < self.pages@.len()
    }

    /// A document with one empty page named `Page-1`.
    pub fn new(direction: Direction) -> (r: Document)
        ensures
            r.wf(),
            r.current == 0,
            r.pages@.len() == 1,
            r.pages@[0].name@ == "Page-1"@,
            r.pages@[0].chart.is_new(direction),
    {
        let chart = Flowchart::new(direction);
        let mut pages: Vec<Page> = Vec::new();
        pages.push(Page { name: owned("Page-1"), chart });
        Document { pages, current: 0 }
    }

    /// The currently selected page's chart, for editing.
    pub fn chart(&mut self) -> (r: &mut Flowchart)
        requires
            old(self).wf(),
        ensures
            *r == old(self).pages@[old(self).current as int].chart,
            final(self).current == old(self).current,
            final(self).pages@ == old(self).pages@.update(
                old(self).current as int,
                Page { chart: *final(r), ..old(self).pages@[old(self).current as int] },
            ),
    {
        &mut self.pages[self.current].chart
    }

    /// The currently selected page's chart.
    pub fn chart_ref(&self) -> (r: &Flowchart)
        requires
            self.wf(),
        ensures
            *r == self.pages@[self.current as int].chart,
    {
        &self.pages[self.current].chart
    }

    /// Add a page (named `Page-<n>` when no name is given) and select it.
    /// Returns its index.
    pub fn add_page(&mut self, name: Option<String>, direction: Direction) -> (r: usize)
        requires
            old(self).pages@.len() < usize::MAX,
        ensures
            r == old(self).pages@.len(),
            final(self).current == r,
            final(self).pages@.len() == old(self).pages@.len() + 1,
            final(self).pages@.drop_last() == old(self).pages@,
            final(self).pages@.last().chart.is_new(direction),
            final(self).pages@.last().name@ == match name {
                Some(n) => n@,
                None => "Page-"@ + decimal(old(self).pages@.len() + 1),
            },
    {
        let idx = self.pages.len();
        let name = match name {
            Some(n) => n,
            None => {
                let mut n = owned("Page-");
                push_decimal(&mut n, idx + 1);
                n
            },
        };
        self.pages.push(Page { name, chart: Flowchart::new(direction) });
        self.current = idx;
        assert(self.pages@.drop_last() =~= old(self).pages@);
        idx
    }

    /// Select an existing page by index.
    pub fn select_page(&mut self, index: usize) -> (r: Result<(), FlowError>)
        ensures
            index >= old(self).pages@.len() ==> is_not_found(
                r,
                "page index "@ + decimal(index as nat),
            ) && *final(self) == *old(self),
            index < old(self).pages@.len() ==> r is Ok && *final(self) == (Document {
                current: index,
                ..*old(self)
            }),
    {
        if index >= self.pages.len() {
            let mut m = owned("page index ");
            push_decimal(&mut m, index);
            return Err(FlowError::NotFound(m));
        }
        self.current = index;
        Ok(())
    }
}


/// Ids of the swimlane containers, in declaration order.
pub open spec fn lane_ids_spec(sgs: Seq<Subgraph>) -> Seq<Seq<char>>
    decreases sgs.len(),
{
    if sgs.len() == 0 {
        Seq::empty()
    } else {
        lane_ids_spec(sgs.drop_last()) + if sgs.last().kind == ContainerKind::Swimlane {
            seq![sgs.last().id@]
        } else {
            Seq::<Seq<char>>::empty()
        }
    }
}

/// The ids of the chart's swimlanes (these become lane bands).
pub fn lane_ids(fc: &Flowchart) -> (r: Vec<String>)
    ensures
        string_views(r@) == lane_ids_spec(fc.subgraphs@),
{
    let mut r: Vec<String> = Vec::new();
    let mut i: usize = 0;
    while i < fc.subgraphs.len()
        invariant
            i <= fc.subgraphs@.len(),
            string_views(r@) == lane_ids_spec(fc.subgraphs@.take(i as int)),
        decreases fc.subgraphs.len() - i,
    {
        assert(fc.subgraphs@.take(i + 1).drop_last() =~= fc.subgraphs@.take(i as int));
        if fc.subgraphs[i].kind == ContainerKind::Swimlane {
            r.push(crate::text::copy_string(&fc.subgraphs[i].id));
        }
        i += 1;
    }
    assert(fc.subgraphs@.take(fc.subgraphs@.len() as int) =~= fc.subgraphs@);
    r
}


/// The parent id of the first container with id `id`.
pub open spec fn parent_of(sgs: Seq<Subgraph>, id: Seq<char>) -> Option<Seq<char>> {
    match first_index(subgraph_ids(sgs), id) {
        Some(i) => match sgs[i].parent {
            Some(p) => Some(p@),
            None => None,
        },
        None => None,
    }
}

/// Steps taken up the parent chain from `p`, starting at `d`; the walk
/// stops at a container without a known parent or after 17 steps.
pub open spec fn depth_from(sgs: Seq<Subgraph>, p: Option<Seq<char>>, d: nat) -> nat
    decreases 17 - d,
{
    match p {
        None => d,
        Some(pid) => if d + 1 > 16 {
            d + 1
        } else {
            depth_from(sgs, parent_of(sgs, pid), d + 1)
        },
    }
}

/// Nesting depth of container `i`.
pub open spec fn container_depth(sgs: Seq<Subgraph>, i: int) -> nat {
    depth_from(
        sgs,
        match sgs[i].parent {
            Some(p) => Some(p@),
            None => None,
        },
        0,
    )
}

/// Indices below `n` of the containers at depth `d`, ascending.
pub open spec fn at_depth(sgs: Seq<Subgraph>, d: nat, n: nat) -> Seq<usize>
    decreases n,
{
    if n == 0 {
        Seq::empty()
    } else {
        at_depth(sgs, d, (n - 1) as nat) + if container_depth(sgs, n - 1) == d {
            seq![(n - 1) as usize]
        } else {
            Seq::<usize>::empty()
        }
    }
}

/// Container indices ordered by depth below `k`, each depth in index order.
pub open spec fn by_depth(sgs: Seq<Subgraph>, k: nat) -> Seq<usize>
    decreases k,
{
    if k == 0 {
        Seq::empty()
    } else {
        by_depth(sgs, (k - 1) as nat) + at_depth(sgs, (k - 1) as nat, sgs.len())
    }
}

/// Container indices, parents before the containers nested in them: sorted
/// by nesting depth, keeping declaration order among equals.
pub open spec fn ordered_containers_spec(sgs: Seq<Subgraph>) -> Seq<usize> {
    by_depth(sgs, 18)
}

proof fn lemma_depth_bound(sgs: Seq<Subgraph>, p: Option<Seq<char>>, d: nat)
    requires
        d <= 16,
    ensures
        depth_from(sgs, p, d) <= 17,
        d <= depth_from(sgs, p, d),
    decreases 17 - d,
{
    if let Some(pid) = p {
        if d + 1 <= 16 {
            lemma_depth_bound(sgs, parent_of(sgs, pid), d + 1);
        }
    }
}

fn parent_id(sgs: &Vec<Subgraph>, id: &str) -> (r: Option<String>)
    ensures
        match r {
            Some(x) => parent_of(sgs@, id@) == Some(x@),
            None => parent_of(sgs@, id@) is None,
        },
{
    match find_subgraph(sgs, id) {
        Some(i) => match &sgs[i].parent {
            Some(p) => Some(crate::text::copy_string(p)),
            None => None,
        },
        None => None,
    }
}

fn container_depth_of(sgs: &Vec<Subgraph>, i: usize) -> (r: usize)
    requires
        i < sgs@.len(),
    ensures
        r == container_depth(sgs@, i as int),
        r <= 17,
{
    let mut d: usize = 0;
    let mut p: Option<String> = match &sgs[i].parent {
        Some(x) => Some(crate::text::copy_string(x)),
        None => None,
    };
    let ghost start = match sgs@[i as int].parent {
        Some(x) => Some(x@),
        None => None,
    };
    proof {
        lemma_depth_bound(sgs@, start, 0);
    }
    assert(container_depth(sgs@, i as int) == depth_from(sgs@, start, 0));
    loop
        invariant
            d <= 16,
            i < sgs@.len(),
            container_depth(sgs@, i as int) == depth_from(sgs@, start, 0),
            depth_from(sgs@, match p {
                Some(x) => Some(x@),
                None => None,
            }, d as nat) == depth_from(sgs@, start, 0),
            depth_from(sgs@, start, 0) <= 17,
        decreases 17 - d,
    {
        match p {
            None => {
                return d;
            },
            Some(pid) => {
                d += 1;
                let next = parent_id(sgs, pid.as_str());
                if d > 16 {
                    return d;
                }
                p = next;
            },
        }
    }
}

/// Container indices in drawing order (see [`ordered_containers_spec`]).
pub fn ordered_containers(fc: &Flowchart) -> (r: Vec<usize>)
    ensures
        r@ == ordered_containers_spec(fc.subgraphs@),
{
    let n = fc.subgraphs.len();
    let mut depths: Vec<usize> = Vec::new();
    let mut i: usize = 0;
    while i < n
        invariant
            n == fc.subgraphs@.len(),
            i <= n,
            depths@.len() == i,
            forall|j: int| 0 <= j < i ==> depths@[j] == container_depth(fc.subgraphs@, j),
        decreases n - i,
    {
        let d = container_depth_of(&fc.subgraphs, i);
        depths.push(d);
        i += 1;
    }
    let mut r: Vec<usize> = Vec::new();
    let mut d: usize = 0;
    while d < 18
        invariant
            n == fc.subgraphs@.len(),
            depths@.len() == n,
            forall|j: int| 0 <= j < n ==> depths@[j] == container_depth(fc.subgraphs@, j),
            d <= 18,
            r@ == by_depth(fc.subgraphs@, d as nat),
        decreases 18 - d,
    {
        let ghost base = r@;
        let mut k: usize = 0;
        while k < n
            invariant
                n == fc.subgraphs@.len(),
                depths@.len() == n,
                forall|j: int| 0 <= j < n ==> depths@[j] == container_depth(fc.subgraphs@, j),
                d < 18,
                k <= n,
                base == by_depth(fc.subgraphs@, d as nat),
                r@ == base + at_depth(fc.subgraphs@, d as nat, k as nat),
            decreases n - k,
        {
            if depths[k] == d {
                r.push(k);
            }
            assert(r@ =~= base + at_depth(fc.subgraphs@, d as nat, (k + 1) as nat));
            k += 1;
        }
        d += 1;
    }
    r
}


proof fn lemma_at_depth_range(sgs: Seq<Subgraph>, d: nat, n: nat)
    ensures
        forall|q: int| 0 <= q < at_depth(sgs, d, n).len() ==> (#[trigger] at_depth(sgs, d, n)[q]) < n,
    decreases n,
{
    if n > 0 {
        lemma_at_depth_range(sgs, d, (n - 1) as nat);
        let prev = at_depth(sgs, d, (n - 1) as nat);
        let cur = at_depth(sgs, d, n);
        assert forall|q: int| 0 <= q < cur.len() implies (#[trigger] cur[q]) < n by {
            if q < prev.len() {
                assert(cur[q] == prev[q]);
            }
        }
    }
}

proof fn lemma_by_depth_range(sgs: Seq<Subgraph>, k: nat)
    ensures
        forall|q: int| 0 <= q < by_depth(sgs, k).len() ==> (#[trigger] by_depth(sgs, k)[q]) < sgs.len(),
    decreases k,
{
    if k > 0 {
        lemma_by_depth_range(sgs, (k - 1) as nat);
        lemma_at_depth_range(sgs, (k - 1) as nat, sgs.len());
        let a = by_depth(sgs, (k - 1) as nat);
        let b = at_depth(sgs, (k - 1) as nat, sgs.len());
        assert forall|q: int| 0 <= q < (a + b).len() implies (#[trigger] (a + b)[q]) < sgs.len() by {
            if q < a.len() {
                assert((a + b)[q] == a[q]);
            } else {
                assert((a + b)[q] == b[q - a.len()]);
            }
        }
    }
}

/// Every index in the drawing order names a container.
pub proof fn lemma_ordered_in_range(sgs: Seq<Subgraph>)
    ensures
        forall|q: int|
            0 <= q < ordered_containers_spec(sgs).len() ==> (#[trigger] ordered_containers_spec(sgs)[q])
                < sgs.len(),
{
    lemma_by_depth_range(sgs, 18);
}

} // verus!
