//! The decisions behind the flowchart tools: parsing tool parameters and
//! building whole pages from batch specs. Errors are structured answers
//! ([`ErrorResponse`]) ready to be sent back.

use vstd::prelude::*;

use crate::engine::chart::{first_unknown, string_views};
use crate::engine::{
    first_index, lemma_first_index, lemma_first_index_push, node_ids, Arrow, ContainerKind,
    Decimal, Direction, Document, Edge, EdgeRouting, Flowchart, LayoutKind, LineStyle, Node, Page,
    Point, Shape, Style,
};
use crate::error::{engine_error, error_response, ErrorResponse, FlowError, DUPLICATE, INVALID_INPUT, NOT_FOUND, quoted};
use crate::text::{
    blank, chars_of, copy_opt_string, copy_string, decimal, is_blank, key_spec, lower_spec, owned,
    eq_lit, lower_of, push_chars, push_decimal, push_str, replace_lit, replace_spec, str_blank,
    str_eq, upper_spec,
};
use crate::templates::{chart_view, template_index, template_view};
use crate::types::inputs::{BuildDocumentInput, EdgeSpec, NodeSpec, PageSpec, StyleFields};

verus! {

/// An error answer as plain values: category, message, suggestion.
pub type ErrView = (Seq<char>, Seq<char>, Seq<char>);

pub open spec fn err_view(e: ErrorResponse) -> ErrView {
    (e.category@, e.message@, e.suggestion@)
}

/// An `invalid_input` answer.
pub open spec fn invalid(message: Seq<char>, suggestion: Seq<char>) -> ErrView {
    (INVALID_INPUT@, message, suggestion)
}

/// The answer for a result that is an error with the given view.
pub open spec fn fails_with<T>(r: Result<T, ErrorResponse>, e: ErrView) -> bool {
    r matches Err(x) && err_view(x) == e
}

fn invalid_input(message: String, suggestion: &str) -> (r: ErrorResponse)
    ensures
        err_view(r) == invalid(message@, suggestion@),
{
    error_response(INVALID_INPUT, message, suggestion)
}

// ---------------------------------------------------------------------------
// Parameter parsing
// ---------------------------------------------------------------------------

pub open spec fn unknown_direction(s: Seq<char>) -> ErrView {
    invalid("Unknown direction '"@ + s + "'"@, "Use TB, BT, LR, or RL."@)
}

/// Parse a direction parameter.
pub fn parse_direction(s: &str) -> (r: Result<Direction, ErrorResponse>)
    ensures
        match Direction::parse_spec(upper_spec(s@)) {
            Some(d) => r == Ok::<Direction, ErrorResponse>(d),
            None => fails_with(r, unknown_direction(s@)),
        },
{
    match Direction::parse(s) {
        Some(d) => Ok(d),
        None => {
            let mut m = owned("Unknown direction '");
            push_str(&mut m, s);
            push_str(&mut m, "'");
            Err(invalid_input(m, "Use TB, BT, LR, or RL."))
        },
    }
}

pub open spec fn unknown_shape(s: Seq<char>) -> ErrView {
    invalid("Unknown shape '"@ + s + "'"@, "See add_node for the list of shapes."@)
}

/// Parse a shape parameter.
pub fn parse_shape(s: &str) -> (r: Result<Shape, ErrorResponse>)
    ensures
        match Shape::parse_spec(key_spec(s@)) {
            Some(x) => r == Ok::<Shape, ErrorResponse>(x),
            None => fails_with(r, unknown_shape(s@)),
        },
{
    match Shape::parse(s) {
        Some(x) => Ok(x),
        None => {
            let mut m = owned("Unknown shape '");
            push_str(&mut m, s);
            push_str(&mut m, "'");
            Err(invalid_input(m, "See add_node for the list of shapes."))
        },
    }
}

pub open spec fn unknown_line(s: Seq<char>) -> ErrView {
    invalid("Unknown line style '"@ + s + "'"@, "Use solid, dotted, or thick."@)
}

/// Parse an optional line style; solid when absent.
pub fn parse_line(s: &Option<String>) -> (r: Result<LineStyle, ErrorResponse>)
    ensures
        match s {
            None => r == Ok::<LineStyle, ErrorResponse>(LineStyle::Solid),
            Some(v) => match LineStyle::parse_spec(lower_spec(v@)) {
                Some(x) => r == Ok::<LineStyle, ErrorResponse>(x),
                None => fails_with(r, unknown_line(v@)),
            },
        },
{
    match s {
        None => Ok(LineStyle::Solid),
        Some(v) => match LineStyle::parse(v.as_str()) {
            Some(x) => Ok(x),
            None => {
                let mut m = owned("Unknown line style '");
                push_str(&mut m, v.as_str());
                push_str(&mut m, "'");
                Err(invalid_input(m, "Use solid, dotted, or thick."))
            },
        },
    }
}

pub open spec fn unknown_arrow(s: Seq<char>) -> ErrView {
    invalid(
        "Unknown arrow '"@ + s + "'"@,
        "Use none, open, block, classic, diamond, oval, cross, er_one, er_many, er_zero_to_one, er_zero_to_many, or er_one_to_many."@,
    )
}

/// The arrowhead an optional parameter asks for: `Some(None)` when absent,
/// `None` when it names no arrowhead.
pub open spec fn arrow_choice(s: Option<String>) -> Option<Option<Arrow>> {
    match s {
        None => Some(None),
        Some(v) => match Arrow::parse_spec(key_spec(v@)) {
            Some(a) => Some(Some(a)),
            None => None,
        },
    }
}

/// Parse an optional arrowhead parameter.
pub fn opt_arrow(s: &Option<String>) -> (r: Result<Option<Arrow>, ErrorResponse>)
    ensures
        match arrow_choice(*s) {
            Some(a) => r == Ok::<Option<Arrow>, ErrorResponse>(a),
            None => fails_with(r, unknown_arrow(s->0@)),
        },
{
    match s {
        None => Ok(None),
        Some(v) => match Arrow::parse(v.as_str()) {
            Some(a) => Ok(Some(a)),
            None => {
                let mut m = owned("Unknown arrow '");
                push_str(&mut m, v.as_str());
                push_str(&mut m, "'");
                Err(
                    invalid_input(
                        m,
                        "Use none, open, block, classic, diamond, oval, cross, er_one, er_many, er_zero_to_one, er_zero_to_many, or er_one_to_many.",
                    ),
                )
            },
        },
    }
}

pub open spec fn unknown_routing(s: Seq<char>) -> ErrView {
    invalid(
        "Unknown routing '"@ + s + "'"@,
        "Use orthogonal, straight, curved, or entity_relation."@,
    )
}

/// The routing an optional parameter asks for: `Some(None)` when absent,
/// `None` when it names no routing.
pub open spec fn routing_choice(s: Option<String>) -> Option<Option<EdgeRouting>> {
    match s {
        None => Some(None),
        Some(v) => match EdgeRouting::parse_spec(key_spec(v@)) {
            Some(a) => Some(Some(a)),
            None => None,
        },
    }
}

/// Parse an optional routing parameter.
pub fn opt_routing(s: &Option<String>) -> (r: Result<Option<EdgeRouting>, ErrorResponse>)
    ensures
        match routing_choice(*s) {
            Some(a) => r == Ok::<Option<EdgeRouting>, ErrorResponse>(a),
            None => fails_with(r, unknown_routing(s->0@)),
        },
{
    match s {
        None => Ok(None),
        Some(v) => match EdgeRouting::parse(v.as_str()) {
            Some(a) => Ok(Some(a)),
            None => {
                let mut m = owned("Unknown routing '");
                push_str(&mut m, v.as_str());
                push_str(&mut m, "'");
                Err(invalid_input(m, "Use orthogonal, straight, curved, or entity_relation."))
            },
        },
    }
}

// ---------------------------------------------------------------------------
// File names
// ---------------------------------------------------------------------------

/// A character that cannot stand in a file name is replaced by `-`.
pub open spec fn file_char(c: char) -> char {
    if c == '\\' || c == '/' || c == ':' || c == '*' || c == '?' || c == '"' || c == '<' || c
        == '>' || c == '|' || crate::text::char_is_whitespace(c) {
        '-'
    } else {
        c
    }
}

/// Runs of `-` squeezed to one.
pub open spec fn squeeze_dashes(s: Seq<char>) -> Seq<char>
    decreases s.len(),
{
    if s.len() == 0 {
        Seq::empty()
    } else {
        let p = squeeze_dashes(s.drop_last());
        if s.last() == '-' && p.len() > 0 && p.last() == '-' {
            p
        } else {
            p.push(s.last())
        }
    }
}

/// Number of leading `-`.
pub open spec fn lead_dashes(s: Seq<char>) -> nat
    decreases s.len(),
{
    if s.len() > 0 && s[0] == '-' {
        1 + lead_dashes(s.drop_first())
    } else {
        0
    }
}

/// Number of trailing `-`.
pub open spec fn trail_dashes(s: Seq<char>) -> nat
    decreases s.len(),
{
    if s.len() > 0 && s.last() == '-' {
        1 + trail_dashes(s.drop_last())
    } else {
        0
    }
}

/// `s` without leading and trailing `-`.
pub open spec fn trim_dashes(s: Seq<char>) -> Seq<char> {
    let t = s.skip(lead_dashes(s) as int);
    t.take(t.len() - trail_dashes(t))
}

/// A page name as a file-system-safe token: path separators, reserved
/// characters and whitespace become `-`, runs of `-` collapse to one, and
/// leading and trailing `-` are dropped.
pub open spec fn sanitize_spec(name: Seq<char>) -> Seq<char> {
    trim_dashes(squeeze_dashes(name.map_values(|c: char| file_char(c))))
}

proof fn lemma_lead_dashes(s: Seq<char>)
    ensures
        lead_dashes(s) <= s.len(),
        lead_dashes(s) < s.len() ==> s[lead_dashes(s) as int] != '-',
    decreases s.len(),
{
    if s.len() > 0 && s[0] == '-' {
        lemma_lead_dashes(s.drop_first());
        if lead_dashes(s) < s.len() {
            assert(s[lead_dashes(s) as int] == s.drop_first()[lead_dashes(s.drop_first()) as int]);
        }
    }
}

proof fn lemma_trail_dashes(s: Seq<char>)
    ensures
        trail_dashes(s) <= s.len(),
    decreases s.len(),
{
    if s.len() > 0 && s.last() == '-' {
        lemma_trail_dashes(s.drop_last());
    }
}

/// Sanitize a page name into a file-system-safe token (see
/// [`sanitize_spec`]).
pub fn sanitize_filename(name: &str) -> (r: String)
    ensures
        r@ == sanitize_spec(name@),
{
    let v = chars_of(name);
    let ghost mapped = name@.map_values(|c: char| file_char(c));
    let mut sq: Vec<char> = Vec::new();
    let mut i: usize = 0;
    while i < v.len()
        invariant
            i <= v.len(),
            v@ == name@,
            mapped == name@.map_values(|c: char| file_char(c)),
            sq@ == squeeze_dashes(mapped.take(i as int)),
        decreases v.len() - i,
    {
        let c = v[i];
        let d = if c == '\\' || c == '/' || c == ':' || c == '*' || c == '?' || c == '"' || c == '<'
            || c == '>' || c == '|' || crate::text::is_whitespace(c) {
            '-'
        } else {
            c
        };
        assert(mapped.take(i + 1).drop_last() =~= mapped.take(i as int));
        assert(mapped.take(i + 1).last() == d);
        if !(d == '-' && sq.len() > 0 && sq[sq.len() - 1] == '-') {
            sq.push(d);
        }
        i += 1;
    }
    assert(mapped.take(v.len() as int) =~= mapped);
    let mut a: usize = 0;
    assert(sq@.skip(0) =~= sq@);
    while a < sq.len() && sq[a] == '-'
        invariant
            a <= sq.len(),
            lead_dashes(sq@) == a + lead_dashes(sq@.skip(a as int)),
        decreases sq.len() - a,
    {
        assert(sq@.skip(a as int).drop_first() =~= sq@.skip(a + 1));
        a += 1;
    }
    assert(a < sq.len() ==> sq@.skip(a as int)[0] == sq@[a as int]);
    let ghost t = sq@.skip(a as int);
    let mut b: usize = sq.len();
    assert(t.take(t.len() as int) =~= t);
    while b > a && sq[b - 1] == '-'
        invariant
            a <= b <= sq.len(),
            t == sq@.skip(a as int),
            trail_dashes(t) == (sq.len() - b) + trail_dashes(t.take(b - a)),
        decreases b,
    {
        assert(t.take(b - a).drop_last() =~= t.take(b - a - 1));
        assert(t.take(b - a).last() == sq@[b - 1]);
        b -= 1;
    }
    let mut out = String::new();
    let mut k: usize = a;
    while k < b
        invariant
            a <= k <= b <= sq.len(),
            out@ == sq@.subrange(a as int, k as int),
        decreases b - k,
    {
        crate::text::push_char(&mut out, sq[k]);
        assert(out@ =~= sq@.subrange(a as int, k + 1));
        k += 1;
    }
    proof {
        lemma_trail_dashes(t.take(b - a));
        assert(t.take(t.len() - trail_dashes(t)) =~= sq@.subrange(a as int, b as int));
    }
    out
}

// ---------------------------------------------------------------------------
// Batch pages
// ---------------------------------------------------------------------------

pub open spec fn spec_ids(nodes: Seq<NodeSpec>) -> Seq<Seq<char>> {
    nodes.map_values(|n: NodeSpec| n.id@)
}

/// The shape a node spec asks for: rectangle when absent, `None` when it
/// names no shape.
pub open spec fn shape_choice(shape: Option<String>) -> Option<Shape> {
    match shape {
        None => Some(Shape::Rectangle),
        Some(s) => Shape::parse_spec(key_spec(s@)),
    }
}

pub open spec fn blank_id_error() -> ErrView {
    (INVALID_INPUT@, "invalid input: "@ + "node id must not be empty"@, "Check the tool parameters."@)
}

pub open spec fn duplicate_node_error(id: Seq<char>) -> ErrView {
    (DUPLICATE@, "already exists: "@ + quoted("node"@, id), "Use a unique id or update the existing item."@)
}

pub open spec fn missing_node_error(id: Seq<char>) -> ErrView {
    (NOT_FOUND@, "not found: "@ + quoted("node"@, id), "Check the node id, edge index, or handle."@)
}

/// The first node spec that cannot be added: an unknown shape, a blank id,
/// or an id used before it.
pub open spec fn node_error(nodes: Seq<NodeSpec>) -> Option<ErrView>
    decreases nodes.len(),
{
    if nodes.len() == 0 {
        None
    } else {
        match node_error(nodes.drop_last()) {
            Some(e) => Some(e),
            None => {
                let n = nodes.last();
                if shape_choice(n.shape) is None {
                    Some(unknown_shape(n.shape->0@))
                } else if is_blank(n.id@) {
                    Some(blank_id_error())
                } else if spec_ids(nodes.drop_last()).contains(n.id@) {
                    Some(duplicate_node_error(n.id@))
                } else {
                    None
                }
            },
        }
    }
}

/// The node built from a spec.
pub open spec fn built_node(x: Node, n: NodeSpec) -> bool {
    &&& x.id@ == n.id@
    &&& x.label@ == match n.label {
        Some(l) => l@,
        None => n.id@,
    }
    &&& x.shape == shape_choice(n.shape)->0
    &&& x.style == n.style.style_spec()
    &&& x.image == n.image
    &&& x.stencil == n.stencil
    &&& x.pos is None
    &&& x.size is None
    &&& x.html is None
    &&& x.compartments@.len() == 0
    &&& x.layer is None
}

proof fn lemma_first_index_fresh(keys: Seq<Seq<char>>, k: Seq<char>)
    requires
        !keys.contains(k),
    ensures
        first_index(keys.push(k), k) == Some(keys.len() as int),
{
    lemma_first_index(keys, k);
    lemma_first_index_push(keys, k, k);
    if first_index(keys, k) is Some {
        let j = first_index(keys, k)->0;
        assert(keys[j] == k);
    }
}

proof fn lemma_contains_first_index(keys: Seq<Seq<char>>, k: Seq<char>)
    ensures
        keys.contains(k) == (first_index(keys, k) is Some),
{
    lemma_first_index(keys, k);
    if keys.contains(k) {
        let j = choose|j: int| 0 <= j < keys.len() && keys[j] == k;
        assert(keys[j] == k);
    }
}

/// Add one node spec to the chart (with its image, stencil and style).
fn add_spec_node(fc: &mut Flowchart, n: &NodeSpec) -> (r: Result<(), ErrorResponse>)
    ensures
        ({
            let ids = node_ids(old(fc).nodes@);
            if shape_choice(n.shape) is None {
                fails_with(r, unknown_shape(n.shape->0@))
            } else if is_blank(n.id@) {
                fails_with(r, blank_id_error())
            } else if ids.contains(n.id@) {
                fails_with(r, duplicate_node_error(n.id@))
            } else {
                &&& r is Ok
                &&& final(fc).same_except_nodes(*old(fc))
                &&& final(fc).nodes@.len() == old(fc).nodes@.len() + 1
                &&& final(fc).nodes@.drop_last() == old(fc).nodes@
                &&& built_node(final(fc).nodes@.last(), *n)
            }
        }),
{
    proof {
        lemma_contains_first_index(node_ids(fc.nodes@), n.id@);
    }
    let shape = match &n.shape {
        None => Shape::Rectangle,
        Some(s) => parse_shape(s.as_str())?,
    };
    let label = match &n.label {
        Some(l) => copy_string(l),
        None => copy_string(&n.id),
    };
    match fc.add_node(n.id.as_str(), label.as_str(), shape) {
        Ok(()) => {},
        Err(e) => {
            return Err(engine_error(e));
        },
    }
    let ghost added = *fc;
    let i = fc.nodes.len() - 1;
    proof {
        assert(node_ids(fc.nodes@) =~= node_ids(old(fc).nodes@).push(n.id@));
        lemma_first_index_fresh(node_ids(old(fc).nodes@), n.id@);
    }
    match &n.image {
        Some(img) => {
            let _ = fc.set_node_image(n.id.as_str(), Some(copy_string(img)));
        },
        None => {},
    }
    proof {
        assert(node_ids(fc.nodes@) =~= node_ids(old(fc).nodes@).push(n.id@));
    }
    match &n.stencil {
        Some(st) => {
            let _ = fc.set_node_stencil(n.id.as_str(), Some(copy_string(st)));
        },
        None => {},
    }
    proof {
        assert(node_ids(fc.nodes@) =~= node_ids(old(fc).nodes@).push(n.id@));
    }
    let style = n.style.to_style();
    if !style.is_empty() {
        let _ = fc.style_node(n.id.as_str(), style);
    }
    proof {
        assert(Style::empty_spec().merge_spec(n.style.style_spec()) == n.style.style_spec());
    }
    Ok(())
}

/// Add every node spec, in order.
fn add_spec_nodes(fc: &mut Flowchart, nodes: &Vec<NodeSpec>) -> (r: Result<(), ErrorResponse>)
    requires
        old(fc).nodes@.len() == 0,
    ensures
        match node_error(nodes@) {
            Some(e) => fails_with(r, e),
            None => {
                &&& r is Ok
                &&& final(fc).same_except_nodes(*old(fc))
                &&& final(fc).nodes@.len() == nodes@.len()
                &&& forall|i: int| 0 <= i < nodes@.len() ==> built_node(#[trigger] final(fc).nodes@[i], nodes@[i])
            },
        },
{
    let ghost fc0 = *fc;
    let mut i: usize = 0;
    while i < nodes.len()
        invariant
            i <= nodes.len(),
            node_error(nodes@.take(i as int)) is None,
            fc.same_except_nodes(fc0),
            fc.nodes@.len() == i,
            forall|j: int| 0 <= j < i ==> built_node(#[trigger] fc.nodes@[j], nodes@[j]),
        decreases nodes.len() - i,
    {
        assert(nodes@.take(i + 1).drop_last() =~= nodes@.take(i as int));
        assert(node_ids(fc.nodes@) =~= spec_ids(nodes@.take(i as int))) by {
            assert forall|j: int| 0 <= j < i implies node_ids(fc.nodes@)[j] == spec_ids(
                nodes@.take(i as int),
            )[j] by {
                assert(built_node(fc.nodes@[j], nodes@[j]));
            }
        }
        let ghost before = *fc;
        match add_spec_node(fc, &nodes[i]) {
            Ok(()) => {},
            Err(e) => {
                proof {
                    lemma_node_error_prefix(nodes@, i as int + 1);
                }
                return Err(e);
            },
        }
        proof {
            assert forall|j: int| 0 <= j < i + 1 implies built_node(#[trigger] fc.nodes@[j], nodes@[j]) by {
                if j < i {
                    assert(fc.nodes@[j] == before.nodes@[j]);
                }
            }
        }
        i += 1;
    }
    assert(nodes@.take(nodes.len() as int) =~= nodes@);
    Ok(())
}

/// Once a prefix has an error, every longer prefix has that error.
proof fn lemma_node_error_prefix(nodes: Seq<NodeSpec>, k: int)
    requires
        0 <= k <= nodes.len(),
        node_error(nodes.take(k)) is Some,
    ensures
        node_error(nodes) == node_error(nodes.take(k)),
    decreases nodes.len() - k,
{
    if k < nodes.len() {
        assert(nodes.take(k + 1).drop_last() =~= nodes.take(k));
        lemma_node_error_prefix(nodes, k + 1);
    } else {
        assert(nodes.take(k) =~= nodes);
    }
}

/// The line an optional parameter asks for: solid when absent, `None`
/// when it names no line style.
pub open spec fn line_choice(s: Option<String>) -> Option<LineStyle> {
    match s {
        None => Some(LineStyle::Solid),
        Some(v) => LineStyle::parse_spec(lower_spec(v@)),
    }
}

/// Why an edge spec cannot be added to a chart whose node ids are `ids`.
pub open spec fn edge_spec_error(ids: Seq<Seq<char>>, e: EdgeSpec) -> Option<ErrView> {
    if line_choice(e.line) is None {
        Some(unknown_line(e.line->0@))
    } else if arrow_choice(e.start_arrow) is None {
        Some(unknown_arrow(e.start_arrow->0@))
    } else if arrow_choice(e.end_arrow) is None {
        Some(unknown_arrow(e.end_arrow->0@))
    } else if routing_choice(e.routing) is None {
        Some(unknown_routing(e.routing->0@))
    } else if !ids.contains(e.from@) {
        Some(missing_node_error(e.from@))
    } else if !ids.contains(e.to@) {
        Some(missing_node_error(e.to@))
    } else {
        None
    }
}

/// The first edge spec that cannot be added.
pub open spec fn edges_error(ids: Seq<Seq<char>>, edges: Seq<EdgeSpec>) -> Option<ErrView>
    decreases edges.len(),
{
    if edges.len() == 0 {
        None
    } else {
        match edges_error(ids, edges.drop_last()) {
            Some(e) => Some(e),
            None => edge_spec_error(ids, edges.last()),
        }
    }
}

/// The edge built from a spec.
pub open spec fn built_edge(x: Edge, e: EdgeSpec) -> bool {
    &&& x.from@ == e.from@
    &&& x.to@ == e.to@
    &&& x.label == e.label
    &&& x.line == line_choice(e.line)->0
    &&& x.arrow == match e.arrow {
        Some(b) => b,
        None => true,
    }
    &&& x.start_arrow == arrow_choice(e.start_arrow)->0
    &&& x.end_arrow == arrow_choice(e.end_arrow)->0
    &&& x.routing == routing_choice(e.routing)->0
    &&& x.color == e.color
    &&& x.waypoints@.len() == 0
    &&& x.exit is None
    &&& x.entry is None
    &&& x.label_pos is None
    &&& x.label_offset is None
    &&& x.label_bg is None
    &&& x.label_border is None
}

fn add_spec_edge(fc: &mut Flowchart, e: &EdgeSpec) -> (r: Result<(), ErrorResponse>)
    ensures
        match edge_spec_error(node_ids(old(fc).nodes@), *e) {
            Some(err) => fails_with(r, err),
            None => {
                &&& r is Ok
                &&& final(fc).same_except_edges(*old(fc))
                &&& final(fc).edges@.len() == old(fc).edges@.len() + 1
                &&& final(fc).edges@.drop_last() == old(fc).edges@
                &&& built_edge(final(fc).edges@.last(), *e)
            },
        },
{
    proof {
        lemma_contains_first_index(node_ids(fc.nodes@), e.from@);
        lemma_contains_first_index(node_ids(fc.nodes@), e.to@);
    }
    let line = parse_line(&e.line)?;
    let start = opt_arrow(&e.start_arrow)?;
    let end = opt_arrow(&e.end_arrow)?;
    let routing = opt_routing(&e.routing)?;
    let arrow = match e.arrow {
        Some(b) => b,
        None => true,
    };
    let ghost pre = *fc;
    let _n0 = fc.edges.len();
    let res = fc.add_edge(e.from.as_str(), e.to.as_str(), copy_opt_string(&e.label), line, arrow);
    let idx = match res {
        Ok(k) => {
            assert(pre.has_node_spec(e.from@) && pre.has_node_spec(e.to@));
            assert(k == pre.edges@.len());
            k
        },
        Err(err) => {
            return Err(engine_error(err));
        },
    };
    let ghost added = *fc;
    assert(idx == added.edges@.len() - 1);
    if start.is_some() || end.is_some() || routing.is_some() || e.color.is_some() {
        let _ = fc.style_edge(idx, start, end, routing, copy_opt_string(&e.color));
        proof {
            assert(fc.edges@.drop_last() =~= added.edges@.drop_last());
        }
    }
    Ok(())
}

/// Add every edge spec, in order.
fn add_spec_edges(fc: &mut Flowchart, edges: &Vec<EdgeSpec>) -> (r: Result<(), ErrorResponse>)
    requires
        old(fc).edges@.len() == 0,
    ensures
        match edges_error(node_ids(old(fc).nodes@), edges@) {
            Some(e) => fails_with(r, e),
            None => {
                &&& r is Ok
                &&& final(fc).same_except_edges(*old(fc))
                &&& final(fc).edges@.len() == edges@.len()
                &&& forall|i: int| 0 <= i < edges@.len() ==> built_edge(#[trigger] final(fc).edges@[i], edges@[i])
            },
        },
{
    let ghost fc0 = *fc;
    let ghost ids = node_ids(fc.nodes@);
    let mut i: usize = 0;
    while i < edges.len()
        invariant
            i <= edges.len(),
            ids == node_ids(fc0.nodes@),
            fc0 == *old(fc),
            edges_error(ids, edges@.take(i as int)) is None,
            fc.same_except_edges(fc0),
            fc.edges@.len() == i,
            forall|j: int| 0 <= j < i ==> built_edge(#[trigger] fc.edges@[j], edges@[j]),
        decreases edges.len() - i,
    {
        assert(edges@.take(i + 1).drop_last() =~= edges@.take(i as int));
        assert(edges@.take(i + 1).last() == edges@[i as int]);
        assert(node_ids(fc.nodes@) == ids);
        let ghost before = *fc;
        match add_spec_edge(fc, &edges[i]) {
            Ok(()) => {},
            Err(e) => {
                proof {
                    lemma_edges_error_prefix(ids, edges@, i as int + 1);
                }
                return Err(e);
            },
        }
        proof {
            assert forall|j: int| 0 <= j < i + 1 implies built_edge(#[trigger] fc.edges@[j], edges@[j]) by {
                if j < i {
                    assert(fc.edges@[j] == before.edges@[j]);
                }
            }
        }
        i += 1;
    }
    assert(edges@.take(edges.len() as int) =~= edges@);
    Ok(())
}

proof fn lemma_edges_error_prefix(ids: Seq<Seq<char>>, edges: Seq<EdgeSpec>, k: int)
    requires
        0 <= k <= edges.len(),
        edges_error(ids, edges.take(k)) is Some,
    ensures
        edges_error(ids, edges) == edges_error(ids, edges.take(k)),
    decreases edges.len() - k,
{
    if k < edges.len() {
        assert(edges.take(k + 1).drop_last() =~= edges.take(k));
        lemma_edges_error_prefix(ids, edges, k + 1);
    } else {
        assert(edges.take(k) =~= edges);
    }
}

/// The node spec asks for a decision.
pub open spec fn is_decision_spec(n: NodeSpec) -> bool {
    n.shape matches Some(s) && Shape::parse_spec(key_spec(s@)) == Some(Shape::Diamond)
}

/// A branch label that is present and not blank.
pub open spec fn labeled(e: EdgeSpec) -> bool {
    e.label matches Some(l) && !is_blank(l@)
}

/// Number of edge specs leaving `id`, and how many of them are labeled.
pub open spec fn branch_counts(edges: Seq<EdgeSpec>, id: Seq<char>) -> (nat, nat)
    decreases edges.len(),
{
    if edges.len() == 0 {
        (0, 0)
    } else {
        let c = branch_counts(edges.drop_last(), id);
        let e = edges.last();
        if e.from@ == id {
            (c.0 + 1, c.1 + if labeled(e) {
                1nat
            } else {
                0nat
            })
        } else {
            c
        }
    }
}

pub open spec fn unlabeled_branches_error(id: Seq<char>, total: nat, labeled: nat) -> ErrView {
    invalid(
        "Decision '"@ + id + "' has "@ + decimal(total) + " outgoing branches but only "@ + decimal(
            labeled,
        ) + " are labeled"@,
        "Label every branch of a decision (e.g. Yes/No, or full/half/empty). Each outgoing edge from a diamond needs a `label`."@,
    )
}

/// The first decision (in node order) that branches without labeling
/// every branch.
pub open spec fn decision_error(nodes: Seq<NodeSpec>, edges: Seq<EdgeSpec>) -> Option<ErrView>
    decreases nodes.len(),
{
    if nodes.len() == 0 {
        None
    } else {
        match decision_error(nodes.drop_last(), edges) {
            Some(e) => Some(e),
            None => {
                let n = nodes.last();
                let c = branch_counts(edges, n.id@);
                if is_decision_spec(n) && c.0 >= 2 && c.1 < c.0 {
                    Some(unlabeled_branches_error(n.id@, c.0, c.1))
                } else {
                    None
                }
            },
        }
    }
}

proof fn lemma_branch_counts(edges: Seq<EdgeSpec>, id: Seq<char>)
    ensures
        branch_counts(edges, id).1 <= branch_counts(edges, id).0 <= edges.len(),
    decreases edges.len(),
{
    if edges.len() > 0 {
        lemma_branch_counts(edges.drop_last(), id);
    }
}

fn count_branches(edges: &Vec<EdgeSpec>, id: &str) -> (r: (usize, usize))
    ensures
        r.0 == branch_counts(edges@, id@).0,
        r.1 == branch_counts(edges@, id@).1,
{
    let mut total: usize = 0;
    let mut lab: usize = 0;
    let mut k: usize = 0;
    while k < edges.len()
        invariant
            k <= edges.len(),
            total == branch_counts(edges@.take(k as int), id@).0,
            lab == branch_counts(edges@.take(k as int), id@).1,
        decreases edges.len() - k,
    {
        proof {
            assert(edges@.take(k + 1).drop_last() =~= edges@.take(k as int));
            lemma_branch_counts(edges@.take(k as int), id@);
        }
        let e = &edges[k];
        if str_eq(e.from.as_str(), id) {
            total += 1;
            let has = match &e.label {
                Some(l) => !str_blank(l.as_str()),
                None => false,
            };
            if has {
                lab += 1;
            }
        }
        k += 1;
    }
    assert(edges@.take(edges.len() as int) =~= edges@);
    (total, lab)
}

fn check_decisions(nodes: &Vec<NodeSpec>, edges: &Vec<EdgeSpec>) -> (r: Result<(), ErrorResponse>)
    ensures
        match decision_error(nodes@, edges@) {
            Some(e) => fails_with(r, e),
            None => r is Ok,
        },
{
    let mut i: usize = 0;
    while i < nodes.len()
        invariant
            i <= nodes.len(),
            decision_error(nodes@.take(i as int), edges@) is None,
        decreases nodes.len() - i,
    {
        assert(nodes@.take(i + 1).drop_last() =~= nodes@.take(i as int));
        let n = &nodes[i];
        let decision = match &n.shape {
            Some(sh) => match Shape::parse(sh.as_str()) {
                Some(Shape::Diamond) => true,
                _ => false,
            },
            None => false,
        };
        if decision {
            let (total, lab) = count_branches(edges, n.id.as_str());
            if total >= 2 && lab < total {
                let mut m = owned("Decision '");
                push_str(&mut m, n.id.as_str());
                push_str(&mut m, "' has ");
                push_decimal(&mut m, total);
                push_str(&mut m, " outgoing branches but only ");
                push_decimal(&mut m, lab);
                push_str(&mut m, " are labeled");
                proof {
                    lemma_decision_error_prefix(nodes@, edges@, i + 1);
                }
                return Err(
                    invalid_input(
                        m,
                        "Label every branch of a decision (e.g. Yes/No, or full/half/empty). Each outgoing edge from a diamond needs a `label`.",
                    ),
                );
            }
        }
        i += 1;
    }
    assert(nodes@.take(nodes.len() as int) =~= nodes@);
    Ok(())
}

proof fn lemma_decision_error_prefix(nodes: Seq<NodeSpec>, edges: Seq<EdgeSpec>, k: int)
    requires
        0 <= k <= nodes.len(),
        decision_error(nodes.take(k), edges) is Some,
    ensures
        decision_error(nodes, edges) == decision_error(nodes.take(k), edges),
    decreases nodes.len() - k,
{
    if k < nodes.len() {
        assert(nodes.take(k + 1).drop_last() =~= nodes.take(k));
        lemma_decision_error_prefix(nodes, edges, k + 1);
    } else {
        assert(nodes.take(k) =~= nodes);
    }
}

// ---------------------------------------------------------------------------
// Swimlanes
// ---------------------------------------------------------------------------

pub open spec fn no_lane_error(id: Seq<char>) -> ErrView {
    invalid(
        "Node '"@ + id + "' has no lane but the page declares lanes"@,
        "Give every node a `lane` matching one of the page's `lanes`."@,
    )
}

pub open spec fn unknown_lane_error(id: Seq<char>, lane: Seq<char>) -> ErrView {
    invalid(
        "Node '"@ + id + "' references unknown lane '"@ + lane + "'"@,
        "Add the lane to the page's `lanes` list or fix the node's `lane`."@,
    )
}

/// The first node (in order) without a lane, or with a lane not declared.
pub open spec fn lane_error(nodes: Seq<NodeSpec>, lanes: Seq<Seq<char>>) -> Option<ErrView>
    decreases nodes.len(),
{
    if nodes.len() == 0 {
        None
    } else {
        match lane_error(nodes.drop_last(), lanes) {
            Some(e) => Some(e),
            None => {
                let n = nodes.last();
                match n.lane {
                    None => Some(no_lane_error(n.id@)),
                    Some(l) => if lanes.contains(l@) {
                        None
                    } else {
                        Some(unknown_lane_error(n.id@, l@))
                    },
                }
            },
        }
    }
}

proof fn lemma_lane_error_prefix(nodes: Seq<NodeSpec>, lanes: Seq<Seq<char>>, k: int)
    requires
        0 <= k <= nodes.len(),
        lane_error(nodes.take(k), lanes) is Some,
    ensures
        lane_error(nodes, lanes) == lane_error(nodes.take(k), lanes),
    decreases nodes.len() - k,
{
    if k < nodes.len() {
        assert(nodes.take(k + 1).drop_last() =~= nodes.take(k));
        lemma_lane_error_prefix(nodes, lanes, k + 1);
    } else {
        assert(nodes.take(k) =~= nodes);
    }
}

fn check_lanes(nodes: &Vec<NodeSpec>, lanes: &Vec<String>) -> (r: Result<(), ErrorResponse>)
    ensures
        match lane_error(nodes@, string_views(lanes@)) {
            Some(e) => fails_with(r, e),
            None => r is Ok,
        },
{
    let ghost lv = string_views(lanes@);
    let mut i: usize = 0;
    while i < nodes.len()
        invariant
            i <= nodes.len(),
            lv == string_views(lanes@),
            lane_error(nodes@.take(i as int), lv) is None,
        decreases nodes.len() - i,
    {
        assert(nodes@.take(i + 1).drop_last() =~= nodes@.take(i as int));
        let n = &nodes[i];
        match &n.lane {
            None => {
                let mut m = owned("Node '");
                push_str(&mut m, n.id.as_str());
                push_str(&mut m, "' has no lane but the page declares lanes");
                proof {
                    lemma_lane_error_prefix(nodes@, lv, i + 1);
                }
                return Err(invalid_input(m, "Give every node a `lane` matching one of the page's `lanes`."));
            },
            Some(l) => {
                if !crate::engine::validate::holds(lanes, l.as_str()) {
                    let mut m = owned("Node '");
                    push_str(&mut m, n.id.as_str());
                    push_str(&mut m, "' references unknown lane '");
                    push_str(&mut m, l.as_str());
                    push_str(&mut m, "'");
                    proof {
                        lemma_lane_error_prefix(nodes@, lv, i + 1);
                    }
                    return Err(invalid_input(m, "Add the lane to the page's `lanes` list or fix the node's `lane`."));
                }
            },
        }
        i += 1;
    }
    assert(nodes@.take(nodes.len() as int) =~= nodes@);
    Ok(())
}

/// Ids of the nodes placed in lane `lane`, in node order.
pub open spec fn lane_members(nodes: Seq<NodeSpec>, lane: Seq<char>) -> Seq<Seq<char>>
    decreases nodes.len(),
{
    if nodes.len() == 0 {
        Seq::empty()
    } else {
        let n = nodes.last();
        lane_members(nodes.drop_last(), lane) + if n.lane matches Some(l) && l@ == lane {
            seq![n.id@]
        } else {
            Seq::<Seq<char>>::empty()
        }
    }
}

/// The id of the container of lane `i`.
pub open spec fn lane_id(i: nat) -> Seq<char> {
    "lane"@ + decimal(i)
}

/// The containers built for the lanes.
pub open spec fn built_lanes(sgs: Seq<crate::engine::Subgraph>, nodes: Seq<NodeSpec>, lanes: Seq<String>) -> bool {
    &&& sgs.len() == lanes.len()
    &&& forall|i: int|
        0 <= i < lanes.len() ==> {
            let sg = #[trigger] sgs[i];
            &&& sg.id@ == lane_id(i as nat)
            &&& sg.label@ == lanes[i]@
            &&& string_views(sg.members@) == lane_members(nodes, lanes[i]@)
            &&& sg.kind == ContainerKind::Swimlane
            &&& sg.orientation is None
            &&& sg.parent is None
        }
}

proof fn lemma_decimal_len(n: nat)
    ensures
        decimal(n).len() >= 1,
        n >= 10 ==> decimal(n).len() >= 2,
    decreases n,
{
    if n >= 10 {
        lemma_decimal_len(n / 10);
    }
}

proof fn lemma_digit_injective(a: nat, b: nat)
    requires
        a < 10,
        b < 10,
        crate::text::digit_char(a) == crate::text::digit_char(b),
    ensures
        a == b,
{
    assert(crate::text::digit_char(a) as int == 48 + a);
    assert(crate::text::digit_char(b) as int == 48 + b);
}

/// Different numbers have different decimal forms.
pub proof fn lemma_decimal_injective(a: nat, b: nat)
    requires
        decimal(a) == decimal(b),
    ensures
        a == b,
    decreases a + b,
{
    lemma_decimal_len(a);
    lemma_decimal_len(b);
    if a < 10 && b < 10 {
        assert(decimal(a) == seq![crate::text::digit_char(a)]);
        assert(decimal(b) == seq![crate::text::digit_char(b)]);
        assert(decimal(a)[0] == crate::text::digit_char(a));
        assert(decimal(b)[0] == crate::text::digit_char(b));
        lemma_digit_injective(a, b);
    } else if a >= 10 && b >= 10 {
        assert(decimal(a) == decimal(a / 10).push(crate::text::digit_char(a % 10)));
        assert(decimal(b) == decimal(b / 10).push(crate::text::digit_char(b % 10)));
        assert(decimal(a).last() == crate::text::digit_char(a % 10));
        assert(decimal(b).last() == crate::text::digit_char(b % 10));
        lemma_digit_injective(a % 10, b % 10);
        assert(decimal(a).drop_last() == decimal(b).drop_last());
        assert(decimal(a).drop_last() =~= decimal(a / 10));
        assert(decimal(b).drop_last() =~= decimal(b / 10));
        lemma_decimal_injective(a / 10, b / 10);
    }
}

proof fn lemma_lane_ids_differ(i: nat, j: nat)
    requires
        i != j,
    ensures
        lane_id(i) != lane_id(j),
{
    if lane_id(i) == lane_id(j) {
        assert(lane_id(i).skip("lane"@.len() as int) =~= decimal(i));
        assert(lane_id(j).skip("lane"@.len() as int) =~= decimal(j));
        lemma_decimal_injective(i, j);
    }
}

proof fn lemma_members_known(nodes: Seq<NodeSpec>, lane: Seq<char>, known: Seq<Seq<char>>)
    requires
        forall|k: int| 0 <= k < nodes.len() ==> known.contains(#[trigger] nodes[k].id@),
    ensures
        first_unknown(lane_members(nodes, lane), known) is None,
    decreases nodes.len(),
{
    if nodes.len() > 0 {
        assert forall|k: int| 0 <= k < nodes.drop_last().len() implies known.contains(
            #[trigger] nodes.drop_last()[k].id@,
        ) by {
            assert(nodes.drop_last()[k] == nodes[k]);
        }
        lemma_members_known(nodes.drop_last(), lane, known);
        let m = lane_members(nodes, lane);
        let n = nodes.last();
        assert(known.contains(nodes[nodes.len() - 1].id@));
        if n.lane matches Some(l) && l@ == lane {
            assert(m.drop_last() =~= lane_members(nodes.drop_last(), lane));
            lemma_contains_first_index(known, n.id@);
        } else {
            assert(m =~= lane_members(nodes.drop_last(), lane));
        }
    }
}

fn lane_member_list(nodes: &Vec<NodeSpec>, lane: &String) -> (r: Vec<String>)
    ensures
        string_views(r@) == lane_members(nodes@, lane@),
{
    let mut r: Vec<String> = Vec::new();
    let mut i: usize = 0;
    while i < nodes.len()
        invariant
            i <= nodes.len(),
            string_views(r@) == lane_members(nodes@.take(i as int), lane@),
        decreases nodes.len() - i,
    {
        assert(nodes@.take(i + 1).drop_last() =~= nodes@.take(i as int));
        let n = &nodes[i];
        let hit = match &n.lane {
            Some(l) => str_eq(l.as_str(), lane.as_str()),
            None => false,
        };
        if hit {
            r.push(copy_string(&n.id));
        }
        assert(string_views(r@) =~= lane_members(nodes@.take(i + 1), lane@));
        i += 1;
    }
    assert(nodes@.take(nodes.len() as int) =~= nodes@);
    r
}

/// Add one swimlane container per lane, holding the nodes placed in it.
fn add_lanes(fc: &mut Flowchart, nodes: &Vec<NodeSpec>, lanes: &Vec<String>)
    requires
        old(fc).subgraphs@.len() == 0,
        node_ids(old(fc).nodes@) == spec_ids(nodes@),
    ensures
        final(fc).nodes == old(fc).nodes,
        final(fc).edges == old(fc).edges,
        final(fc).direction == old(fc).direction,
        final(fc).title == old(fc).title,
        final(fc).layout == old(fc).layout,
        final(fc).layers == old(fc).layers,
        final(fc).number_steps == old(fc).number_steps,
        built_lanes(final(fc).subgraphs@, nodes@, lanes@),
{
    let ghost fc0 = *fc;
    proof {
        assert forall|k: int| 0 <= k < nodes@.len() implies node_ids(fc0.nodes@).contains(
            #[trigger] nodes@[k].id@,
        ) by {
            assert(spec_ids(nodes@)[k] == nodes@[k].id@);
        }
    }
    let mut li: usize = 0;
    while li < lanes.len()
        invariant
            li <= lanes.len(),
            fc.nodes == fc0.nodes,
            fc.edges == fc0.edges,
            fc.direction == fc0.direction,
            fc.title == fc0.title,
            fc.layout == fc0.layout,
            fc.layers == fc0.layers,
            fc.number_steps == fc0.number_steps,
            forall|k: int| 0 <= k < nodes@.len() ==> node_ids(fc0.nodes@).contains(#[trigger] nodes@[k].id@),
            built_lanes(fc.subgraphs@, nodes@, lanes@.take(li as int)),
        decreases lanes.len() - li,
    {
        let mut id = owned("lane");
        push_decimal(&mut id, li);
        let members = lane_member_list(nodes, &lanes[li]);
        proof {
            lemma_members_known(nodes@, lanes@[li as int]@, node_ids(fc.nodes@));
            lemma_first_index(crate::engine::subgraph_ids(fc.subgraphs@), id@);
            assert forall|j: int| 0 <= j < fc.subgraphs@.len() implies crate::engine::subgraph_ids(
                fc.subgraphs@,
            )[j] != id@ by {
                assert(lanes@.take(li as int)[j] == lanes@[j]);
                assert(fc.subgraphs@[j].id@ == lane_id(j as nat));
                lemma_lane_ids_differ(j as nat, li as nat);
            }
        }
        let ghost before = fc.subgraphs@;
        let _ = fc.add_subgraph(
            id.as_str(),
            lanes[li].as_str(),
            members,
            ContainerKind::Swimlane,
            None,
            None,
        );
        proof {
            assert forall|i: int| 0 <= i < li + 1 implies {
                let sg = #[trigger] fc.subgraphs@[i];
                &&& sg.id@ == lane_id(i as nat)
                &&& sg.label@ == lanes@.take(li + 1)[i]@
                &&& string_views(sg.members@) == lane_members(nodes@, lanes@.take(li + 1)[i]@)
                &&& sg.kind == ContainerKind::Swimlane
                &&& sg.orientation is None
                &&& sg.parent is None
            } by {
                if i < li {
                    assert(fc.subgraphs@[i] == before[i]);
                    assert(lanes@.take(li + 1)[i] == lanes@.take(li as int)[i]);
                }
            }
        }
        li += 1;
    }
    assert(lanes@.take(lanes.len() as int) =~= lanes@);
}

// ---------------------------------------------------------------------------
// Whole pages
// ---------------------------------------------------------------------------

/// The direction of a page: its own, else the document's; `None` when its
/// own names no direction.
pub open spec fn page_direction(spec: PageSpec, default_dir: Direction) -> Option<Direction> {
    match spec.direction {
        None => Some(default_dir),
        Some(s) => Direction::parse_spec(upper_spec(s@)),
    }
}

/// Why a page spec cannot be built, checked in order: direction, nodes,
/// edges, decision labels, lane membership.
pub open spec fn page_error(spec: PageSpec, default_dir: Direction) -> Option<ErrView> {
    if page_direction(spec, default_dir) is None {
        Some(unknown_direction(spec.direction->0@))
    } else if node_error(spec.nodes@) is Some {
        node_error(spec.nodes@)
    } else if edges_error(spec_ids(spec.nodes@), spec.edges@) is Some {
        edges_error(spec_ids(spec.nodes@), spec.edges@)
    } else if decision_error(spec.nodes@, spec.edges@) is Some {
        decision_error(spec.nodes@, spec.edges@)
    } else if spec.lanes@.len() > 0 && lane_error(spec.nodes@, string_views(spec.lanes@)) is Some {
        lane_error(spec.nodes@, string_views(spec.lanes@))
    } else {
        None
    }
}

/// The name of page `index`: its own, else `Page-<index + 1>`.
pub open spec fn page_name(spec: PageSpec, index: nat) -> Seq<char> {
    match spec.name {
        Some(n) => n@,
        None => "Page-"@ + decimal(index + 1),
    }
}

/// The chart built from a page spec.
pub open spec fn built_page(fc: Flowchart, spec: PageSpec, dir: Direction) -> bool {
    &&& fc.direction == dir
    &&& fc.title == spec.title
    &&& fc.nodes@.len() == spec.nodes@.len()
    &&& forall|i: int| 0 <= i < spec.nodes@.len() ==> built_node(#[trigger] fc.nodes@[i], spec.nodes@[i])
    &&& fc.edges@.len() == spec.edges@.len()
    &&& forall|i: int| 0 <= i < spec.edges@.len() ==> built_edge(#[trigger] fc.edges@[i], spec.edges@[i])
    &&& if spec.lanes@.len() == 0 {
        fc.subgraphs@.len() == 0
    } else {
        built_lanes(fc.subgraphs@, spec.nodes@, spec.lanes@)
    }
    &&& fc.layout == LayoutKind::Layered
    &&& fc.layers@.len() == 0
    &&& !fc.number_steps
}

/// Build one page's chart from a page spec, and the page's name. Shapes,
/// ids, edge endpoints, decision labels and lane membership are checked;
/// the first problem found is the answer.
pub fn build_page_chart(spec: PageSpec, default_dir: Direction, page_index: usize) -> (r: Result<
    (Flowchart, String),
    ErrorResponse,
>)
    requires
        page_index < usize::MAX,
    ensures
        match page_error(spec, default_dir) {
            Some(e) => fails_with(r, e),
            None => r matches Ok((fc, name)) && built_page(
                fc,
                spec,
                page_direction(spec, default_dir)->0,
            ) && name@ == page_name(spec, page_index as nat),
        },
{
    let dir = match &spec.direction {
        None => default_dir,
        Some(s) => parse_direction(s.as_str())?,
    };
    let mut fc = Flowchart::new(dir);
    fc.title = copy_opt_string(&spec.title);
    add_spec_nodes(&mut fc, &spec.nodes)?;
    proof {
        assert(node_ids(fc.nodes@) =~= spec_ids(spec.nodes@)) by {
            assert forall|j: int| 0 <= j < spec.nodes@.len() implies node_ids(fc.nodes@)[j]
                == spec_ids(spec.nodes@)[j] by {
                assert(built_node(fc.nodes@[j], spec.nodes@[j]));
            }
        }
    }
    add_spec_edges(&mut fc, &spec.edges)?;
    check_decisions(&spec.nodes, &spec.edges)?;
    if spec.lanes.len() > 0 {
        check_lanes(&spec.nodes, &spec.lanes)?;
        add_lanes(&mut fc, &spec.nodes, &spec.lanes);
    }
    let name = match &spec.name {
        Some(n) => copy_string(n),
        None => {
            let mut t = owned("Page-");
            push_decimal(&mut t, page_index + 1);
            t
        },
    };
    Ok((fc, name))
}


/// The first page spec, in order, that cannot be built, and why.
pub open spec fn first_page_error(pages: Seq<PageSpec>, dir: Direction) -> Option<ErrView>
    decreases pages.len(),
{
    if pages.len() == 0 {
        None
    } else {
        match first_page_error(pages.drop_last(), dir) {
            Some(e) => Some(e),
            None => page_error(pages.last(), dir),
        }
    }
}

proof fn lemma_first_page_error_extend(all: Seq<PageSpec>, k: int, dir: Direction)
    requires
        0 <= k <= all.len(),
        first_page_error(all.take(k), dir) is Some,
    ensures
        first_page_error(all, dir) == first_page_error(all.take(k), dir),
    decreases all.len(),
{
    if k == all.len() {
        assert(all.take(k) =~= all);
    } else {
        assert(all.drop_last().take(k) =~= all.take(k));
        lemma_first_page_error_extend(all.drop_last(), k, dir);
    }
}

/// The document-level default direction: TB when none is given.
pub open spec fn document_direction(direction: Option<String>) -> Option<Direction> {
    match direction {
        None => Some(Direction::TB),
        Some(s) => Direction::parse_spec(upper_spec(s@)),
    }
}

pub open spec fn no_pages() -> ErrView {
    invalid("No pages provided"@, "Provide at least one page in `pages`."@)
}

/// Build a whole document from page specs. Every page is checked before
/// anything is returned, so a bad spec yields its error and no document.
pub fn build_document(input: BuildDocumentInput) -> (r: Result<Document, ErrorResponse>)
    requires
        input.pages@.len() < usize::MAX,
    ensures
        match document_direction(input.direction) {
            None => fails_with(r, unknown_direction(input.direction->0@)),
            Some(d) => if input.pages@.len() == 0 {
                fails_with(r, no_pages())
            } else {
                match first_page_error(input.pages@, d) {
                    Some(e) => fails_with(r, e),
                    None => r matches Ok(doc) && {
                        &&& doc.wf()
                        &&& doc.current == 0
                        &&& doc.pages@.len() == input.pages@.len()
                        &&& forall|i: int|
                            0 <= i < input.pages@.len() ==> {
                                &&& built_page(
                                    (#[trigger] doc.pages@[i]).chart,
                                    input.pages@[i],
                                    page_direction(input.pages@[i], d)->0,
                                )
                                &&& doc.pages@[i].name@ == page_name(input.pages@[i], i as nat)
                            }
                    },
                }
            },
        },
{
    let dir = match &input.direction {
        None => Direction::TB,
        Some(s) => parse_direction(s.as_str())?,
    };
    if input.pages.len() == 0 {
        return Err(invalid_input(owned("No pages provided"), "Provide at least one page in `pages`."));
    }
    let ghost all = input.pages@;
    let ghost given = input.direction;
    assert(document_direction(given) == Some(dir));
    let n = input.pages.len();
    let mut rest = input.pages;
    let mut out: Vec<Page> = Vec::new();
    let mut i: usize = 0;
    while i < n
        invariant
            n == all.len(),
            n < usize::MAX,
            i <= n,
            document_direction(given) == Some(dir),
            given == input.direction,
            all == input.pages@,
            rest@ == all.skip(i as int),
            out@.len() == i,
            first_page_error(all.take(i as int), dir) is None,
            forall|j: int|
                0 <= j < i ==> {
                    &&& built_page(
                        (#[trigger] out@[j]).chart,
                        all[j],
                        page_direction(all[j], dir)->0,
                    )
                    &&& out@[j].name@ == page_name(all[j], j as nat)
                },
        decreases n - i,
    {
        let spec = rest.remove(0);
        assert(spec == all[i as int]);
        assert(all.take(i + 1).drop_last() =~= all.take(i as int));
        let built = build_page_chart(spec, dir, i);
        match built {
            Err(e) => {
                proof {
                    assert(all.take(i + 1).last() == all[i as int]);
                    assert(page_error(all[i as int], dir) is Some);
                    assert(first_page_error(all.take(i + 1), dir) == page_error(all[i as int], dir));
                    lemma_first_page_error_extend(all, i + 1, dir);
                    assert(first_page_error(all, dir) == Some(err_view(e)));
                }
                return Err(e);
            },
            Ok((fc, name)) => {
                out.push(Page { name, chart: fc });
            },
        }
        assert(rest@ =~= all.skip(i + 1));
        i += 1;
    }
    assert(all.take(n as int) =~= all);
    Ok(Document { pages: out, current: 0 })
}


/// A number written with at least two digits (`format!("{:02}", n)`).
pub open spec fn two_digits(n: nat) -> Seq<char> {
    if n < 10 {
        "0"@ + decimal(n)
    } else {
        decimal(n)
    }
}

/// The file name for page `index` under a name pattern: `{index}` becomes
/// the 1-based page number with two digits, `{name}` the sanitized page
/// name and `{ext}` the format's extension, in that order.
pub open spec fn page_file_name_spec(pattern: Seq<char>, index: nat, name: Seq<char>, ext: Seq<char>) -> Seq<char> {
    replace_spec(
        replace_spec(replace_spec(pattern, "{index}"@, two_digits(index + 1)), "{name}"@, sanitize_spec(name)),
        "{ext}"@,
        ext,
    )
}

/// The file name one page is exported under (see [`page_file_name_spec`]).
pub fn page_file_name(pattern: &str, index: usize, name: &str, ext: &str) -> (r: String)
    requires
        index < usize::MAX,
    ensures
        r@ == page_file_name_spec(pattern@, index as nat, name@, ext@),
{
    let mut num = String::new();
    if index + 1 < 10 {
        push_str(&mut num, "0");
    }
    push_decimal(&mut num, index + 1);
    proof {
        reveal_strlit("0");
        reveal_strlit("{index}");
        reveal_strlit("{name}");
        reveal_strlit("{ext}");
    }
    let safe = sanitize_filename(name);
    let a = replace_lit(pattern, "{index}", num.as_str());
    let b = replace_lit(a.as_str(), "{name}", safe.as_str());
    replace_lit(b.as_str(), "{ext}", ext)
}


// ---------------------------------------------------------------------------
// Tool parameters
// ---------------------------------------------------------------------------

pub open spec fn unknown_layout(s: Seq<char>) -> ErrView {
    invalid("Unknown layout '"@ + s + "'"@, "Use layered, tree, or mind_map."@)
}

/// Parse a layout parameter.
pub fn layout_param(s: &str) -> (r: Result<LayoutKind, ErrorResponse>)
    ensures
        match LayoutKind::parse_spec(key_spec(s@)) {
            Some(k) => r == Ok::<LayoutKind, ErrorResponse>(k),
            None => fails_with(r, unknown_layout(s@)),
        },
{
    match LayoutKind::parse(s) {
        Some(k) => Ok(k),
        None => {
            let mut m = owned("Unknown layout '");
            push_str(&mut m, s);
            push_str(&mut m, "'");
            Err(invalid_input(m, "Use layered, tree, or mind_map."))
        },
    }
}

pub open spec fn unknown_container_kind(s: Seq<char>) -> ErrView {
    invalid("Unknown container kind '"@ + s + "'"@, "Use group, container, swimlane, or pool."@)
}

/// Parse an optional container kind; a group when absent.
pub fn container_kind_param(s: &Option<String>) -> (r: Result<ContainerKind, ErrorResponse>)
    ensures
        match s {
            None => r == Ok::<ContainerKind, ErrorResponse>(ContainerKind::Group),
            Some(v) => match ContainerKind::parse_spec(lower_spec(v@)) {
                Some(k) => r == Ok::<ContainerKind, ErrorResponse>(k),
                None => fails_with(r, unknown_container_kind(v@)),
            },
        },
{
    match s {
        None => Ok(ContainerKind::Group),
        Some(v) => match ContainerKind::parse(v.as_str()) {
            Some(k) => Ok(k),
            None => {
                let mut m = owned("Unknown container kind '");
                push_str(&mut m, v.as_str());
                push_str(&mut m, "'");
                Err(invalid_input(m, "Use group, container, swimlane, or pool."))
            },
        },
    }
}

/// Parse an optional direction parameter; top to bottom when absent.
pub fn direction_param(s: &Option<String>) -> (r: Result<Direction, ErrorResponse>)
    ensures
        match document_direction(*s) {
            Some(d) => r == Ok::<Direction, ErrorResponse>(d),
            None => fails_with(r, unknown_direction(s->0@)),
        },
{
    match s {
        None => Ok(Direction::TB),
        Some(v) => parse_direction(v.as_str()),
    }
}

pub open spec fn nothing_to_move() -> ErrView {
    invalid("Nothing to set"@, "Provide x+y, w+h, or clear:true."@)
}

pub open spec fn unpaired(a: Seq<char>, b: Seq<char>) -> ErrView {
    invalid(a + " and "@ + b + " must be provided together"@, "Pass both "@ + a + " and "@ + b + ", or neither."@)
}

/// A pair given in full, or not at all; `None` when only half is given.
pub open spec fn pair_choice(a: Option<Decimal>, b: Option<Decimal>) -> Option<Option<Point>> {
    match (a, b) {
        (Some(x), Some(y)) => Some(Some(Point { x, y })),
        (None, None) => Some(None),
        _ => None,
    }
}

fn pair_param(a: Option<Decimal>, b: Option<Decimal>, an: &str, bn: &str) -> (r: Result<
    Option<Point>,
    ErrorResponse,
>)
    ensures
        match pair_choice(a, b) {
            Some(p) => r == Ok::<Option<Point>, ErrorResponse>(p),
            None => fails_with(r, unpaired(an@, bn@)),
        },
{
    match (a, b) {
        (Some(x), Some(y)) => Ok(Some(Point { x, y })),
        (None, None) => Ok(None),
        _ => {
            let mut m = owned(an);
            push_str(&mut m, " and ");
            push_str(&mut m, bn);
            push_str(&mut m, " must be provided together");
            let mut sug = owned("Pass both ");
            push_str(&mut sug, an);
            push_str(&mut sug, " and ");
            push_str(&mut sug, bn);
            push_str(&mut sug, ", or neither.");
            Err(error_response(INVALID_INPUT, m, sug.as_str()))
        },
    }
}

/// The position and size a `move_node` call asks for: each given in full
/// or not at all, and something to do unless the node is being cleared.
pub fn move_params(
    x: Option<Decimal>,
    y: Option<Decimal>,
    w: Option<Decimal>,
    h: Option<Decimal>,
    clear: bool,
) -> (r: Result<(Option<Point>, Option<Point>), ErrorResponse>)
    ensures
        match (pair_choice(x, y), pair_choice(w, h)) {
            (None, _) => fails_with(r, unpaired("x"@, "y"@)),
            (Some(_), None) => fails_with(r, unpaired("w"@, "h"@)),
            (Some(pos), Some(size)) => if !clear && pos is None && size is None {
                fails_with(r, nothing_to_move())
            } else {
                r == Ok::<(Option<Point>, Option<Point>), ErrorResponse>((pos, size))
            },
        },
{
    let pos = pair_param(x, y, "x", "y")?;
    let size = pair_param(w, h, "w", "h")?;
    if !clear && pos.is_none() && size.is_none() {
        return Err(invalid_input(owned("Nothing to set"), "Provide x+y, w+h, or clear:true."));
    }
    Ok((pos, size))
}

pub open spec fn no_edge_style() -> ErrView {
    invalid("No edge style fields provided"@, "Provide start_arrow, end_arrow, routing, or color."@)
}

/// The arrowheads and routing a `style_edge` call asks for; at least one
/// field (or a color) must be given.
pub fn edge_style_params(
    start: &Option<String>,
    end: &Option<String>,
    routing: &Option<String>,
    color: &Option<String>,
) -> (r: Result<(Option<Arrow>, Option<Arrow>, Option<EdgeRouting>), ErrorResponse>)
    ensures
        match (arrow_choice(*start), arrow_choice(*end), routing_choice(*routing)) {
            (None, _, _) => fails_with(r, unknown_arrow(start->0@)),
            (Some(_), None, _) => fails_with(r, unknown_arrow(end->0@)),
            (Some(_), Some(_), None) => fails_with(r, unknown_routing(routing->0@)),
            (Some(a), Some(b), Some(c)) => if a is None && b is None && c is None && color is None {
                fails_with(r, no_edge_style())
            } else {
                r == Ok::<(Option<Arrow>, Option<Arrow>, Option<EdgeRouting>), ErrorResponse>((a, b, c))
            },
        },
{
    let a = opt_arrow(start)?;
    let b = opt_arrow(end)?;
    let c = opt_routing(routing)?;
    if a.is_none() && b.is_none() && c.is_none() && color.is_none() {
        return Err(
            invalid_input(owned("No edge style fields provided"), "Provide start_arrow, end_arrow, routing, or color."),
        );
    }
    Ok((a, b, c))
}

pub open spec fn nothing_to_update() -> ErrView {
    invalid("Nothing to update"@, "Provide label and/or line."@)
}

/// The line style an `update_edge` call asks for; a label or a line must be
/// given.
pub fn edge_update_params(label: &Option<String>, line: &Option<String>) -> (r: Result<
    Option<LineStyle>,
    ErrorResponse,
>)
    ensures
        match line {
            Some(v) => match LineStyle::parse_spec(lower_spec(v@)) {
                Some(x) => r == Ok::<Option<LineStyle>, ErrorResponse>(Some(x)),
                None => fails_with(r, unknown_line(v@)),
            },
            None => if label is None {
                fails_with(r, nothing_to_update())
            } else {
                r == Ok::<Option<LineStyle>, ErrorResponse>(None)
            },
        },
{
    let parsed = match line {
        None => None,
        Some(_) => Some(parse_line(line)?),
    };
    if label.is_none() && parsed.is_none() {
        return Err(invalid_input(owned("Nothing to update"), "Provide label and/or line."));
    }
    Ok(parsed)
}

pub open spec fn nothing_to_route() -> ErrView {
    invalid("Nothing to set"@, "Provide waypoints, exit, entry, or clear:true."@)
}

/// A `route_edge` call must clear the routing or give something to set.
pub fn route_params(clear: bool, has_waypoints: bool, has_exit: bool, has_entry: bool) -> (r: Result<
    (),
    ErrorResponse,
>)
    ensures
        clear || has_waypoints || has_exit || has_entry ==> r is Ok,
        !(clear || has_waypoints || has_exit || has_entry) ==> fails_with(r, nothing_to_route()),
{
    if !clear && !has_waypoints && !has_exit && !has_entry {
        return Err(invalid_input(owned("Nothing to set"), "Provide waypoints, exit, entry, or clear:true."));
    }
    Ok(())
}

pub open spec fn no_style() -> ErrView {
    invalid("No style fields provided"@, "Provide at least one style field."@)
}

/// The style a `style_node` call sets; at least one field must be given.
pub fn style_params(fields: StyleFields) -> (r: Result<Style, ErrorResponse>)
    ensures
        fields.style_spec().is_empty_spec() ==> fails_with(r, no_style()),
        !fields.style_spec().is_empty_spec() ==> r == Ok::<Style, ErrorResponse>(fields.style_spec()),
{
    let style = fields.into_style();
    if style.is_empty() {
        return Err(invalid_input(owned("No style fields provided"), "Provide at least one style field."));
    }
    Ok(style)
}


pub open spec fn unknown_template(t: Seq<char>) -> ErrView {
    invalid("Unknown template '"@ + t + "'"@, "Call list_templates for valid ids."@)
}

/// The layout a new document gets: the named one, else layered.
pub open spec fn layout_choice(layout: Option<String>) -> Option<LayoutKind> {
    match layout {
        None => Some(LayoutKind::Layered),
        Some(l) => LayoutKind::parse_spec(key_spec(l@)),
    }
}

/// The single page of a new document: an empty chart, or the named
/// template (turned to `dir` when a direction was given), with the title and
/// layout asked for.
pub open spec fn created(
    doc: Document,
    dir: Direction,
    direction_given: bool,
    template: Option<String>,
    title: Option<String>,
    layout: LayoutKind,
) -> bool {
    let fc = doc.pages@[0].chart;
    &&& doc.wf()
    &&& doc.current == 0
    &&& doc.pages@.len() == 1
    &&& doc.pages@[0].name@ == "Page-1"@
    &&& fc.title == title
    &&& fc.layout == layout
    &&& fc.layers@.len() == 0
    &&& !fc.number_steps
    &&& match template {
        None => fc.direction == dir && fc.nodes@.len() == 0 && fc.edges@.len() == 0
            && fc.subgraphs@.len() == 0,
        Some(t) => {
            let k = template_index(t@)->0;
            let v = template_view(k);
            &&& chart_view(fc) == (if direction_given { dir } else { v.0 }, v.1, v.2, v.3)
        },
    }
}

/// A new document for `create_flowchart`: checks the direction, then the
/// template, then the layout, in that order.
pub fn create_document(
    direction: &Option<String>,
    template: &Option<String>,
    title: Option<String>,
    layout: &Option<String>,
) -> (r: Result<Document, ErrorResponse>)
    ensures
        match document_direction(*direction) {
            None => fails_with(r, unknown_direction(direction->0@)),
            Some(d) => if template is Some && template_index(template->0@) is None {
                fails_with(r, unknown_template(template->0@))
            } else {
                match layout_choice(*layout) {
                    None => fails_with(r, unknown_layout(layout->0@)),
                    Some(l) => r matches Ok(doc) && created(doc, d, direction is Some, *template, title, l),
                }
            },
        },
{
    let dir = direction_param(direction)?;
    let mut doc = match template {
        None => Document::new(dir),
        Some(t) => match crate::templates::build(t.as_str()) {
            Some(d) => d,
            None => {
                let mut m = owned("Unknown template '");
                push_str(&mut m, t.as_str());
                push_str(&mut m, "'");
                return Err(invalid_input(m, "Call list_templates for valid ids."));
            },
        },
    };
    let ghost base = doc.pages@[0].chart;
    if template.is_some() && direction.is_some() {
        doc.pages[0].chart.direction = dir;
    }
    doc.pages[0].chart.title = title;
    let kind = match layout {
        None => LayoutKind::Layered,
        Some(l) => layout_param(l.as_str())?,
    };
    doc.pages[0].chart.layout = kind;
    proof {
        let fc = doc.pages@[0].chart;
        assert(fc.nodes == base.nodes);
        assert(fc.edges == base.edges);
        assert(fc.subgraphs == base.subgraphs);
    }
    Ok(doc)
}


/// An export target.
#[derive(Debug, Clone, Copy, PartialEq, Eq, Structural)]
pub enum ExportFormat {
    Drawio,
    Mermaid,
    Dot,
    Svg,
    Pdf,
    Json,
}

/// The export target a lower-cased format name names.
pub open spec fn format_of(k: Seq<char>) -> Option<ExportFormat> {
    if k == "drawio"@ || k == "xml"@ {
        Some(ExportFormat::Drawio)
    } else if k == "mermaid"@ || k == "mmd"@ {
        Some(ExportFormat::Mermaid)
    } else if k == "dot"@ || k == "graphviz"@ {
        Some(ExportFormat::Dot)
    } else if k == "svg"@ {
        Some(ExportFormat::Svg)
    } else if k == "pdf"@ {
        Some(ExportFormat::Pdf)
    } else if k == "json"@ {
        Some(ExportFormat::Json)
    } else {
        None
    }
}

fn format_named(k: &Vec<char>) -> (r: Option<ExportFormat>)
    ensures
        r == format_of(k@),
{
    if eq_lit(k, "drawio") || eq_lit(k, "xml") {
        Some(ExportFormat::Drawio)
    } else if eq_lit(k, "mermaid") || eq_lit(k, "mmd") {
        Some(ExportFormat::Mermaid)
    } else if eq_lit(k, "dot") || eq_lit(k, "graphviz") {
        Some(ExportFormat::Dot)
    } else if eq_lit(k, "svg") {
        Some(ExportFormat::Svg)
    } else if eq_lit(k, "pdf") {
        Some(ExportFormat::Pdf)
    } else if eq_lit(k, "json") {
        Some(ExportFormat::Json)
    } else {
        None
    }
}

pub open spec fn unknown_format(k: Seq<char>) -> ErrView {
    invalid("Unknown format '"@ + k + "'"@, "Use drawio, mermaid, dot, svg, pdf, or json."@)
}

/// The target of `export_flowchart` (format names are case-insensitive).
pub fn export_format(format: &str) -> (r: Result<ExportFormat, ErrorResponse>)
    ensures
        match format_of(lower_spec(format@)) {
            Some(f) => r == Ok::<ExportFormat, ErrorResponse>(f),
            None => fails_with(r, unknown_format(lower_spec(format@))),
        },
{
    let k = lower_of(format);
    match format_named(&k) {
        Some(f) => Ok(f),
        None => {
            let mut m = owned("Unknown format '");
            push_chars(&mut m, &k);
            push_str(&mut m, "'");
            Err(invalid_input(m, "Use drawio, mermaid, dot, svg, pdf, or json."))
        },
    }
}

pub open spec fn unknown_pages_format(s: Seq<char>) -> ErrView {
    invalid("Unknown format '"@ + s + "'"@, "Use drawio, mermaid, dot, svg, or json."@)
}

/// The target of `export_pages`: any export format but PDF.
pub fn pages_format(format: &str) -> (r: Result<ExportFormat, ErrorResponse>)
    ensures
        match format_of(lower_spec(format@)) {
            Some(f) => if f == ExportFormat::Pdf {
                fails_with(r, unknown_pages_format(format@))
            } else {
                r == Ok::<ExportFormat, ErrorResponse>(f)
            },
            None => fails_with(r, unknown_pages_format(format@)),
        },
{
    let k = lower_of(format);
    match format_named(&k) {
        Some(f) if f != ExportFormat::Pdf => Ok(f),
        _ => {
            let mut m = owned("Unknown format '");
            push_str(&mut m, format);
            push_str(&mut m, "'");
            Err(invalid_input(m, "Use drawio, mermaid, dot, svg, or json."))
        },
    }
}


/// Parse an optional shape parameter; a rectangle when absent.
pub fn shape_param(s: &Option<String>) -> (r: Result<Shape, ErrorResponse>)
    ensures
        match s {
            None => r == Ok::<Shape, ErrorResponse>(Shape::Rectangle),
            Some(v) => match Shape::parse_spec(key_spec(v@)) {
                Some(x) => r == Ok::<Shape, ErrorResponse>(x),
                None => fails_with(r, unknown_shape(v@)),
            },
        },
{
    match s {
        None => Ok(Shape::Rectangle),
        Some(v) => parse_shape(v.as_str()),
    }
}

/// Parse an optional shape parameter that may leave the shape as it is.
pub fn opt_shape(s: &Option<String>) -> (r: Result<Option<Shape>, ErrorResponse>)
    ensures
        match s {
            None => r == Ok::<Option<Shape>, ErrorResponse>(None),
            Some(v) => match Shape::parse_spec(key_spec(v@)) {
                Some(x) => r == Ok::<Option<Shape>, ErrorResponse>(Some(x)),
                None => fails_with(r, unknown_shape(v@)),
            },
        },
{
    match s {
        None => Ok(None),
        Some(v) => Ok(Some(parse_shape(v.as_str())?)),
    }
}

} // verus!
