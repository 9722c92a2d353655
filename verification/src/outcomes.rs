//! What reading, checking and writing charts must give: a later node
//! definition is applied on import, the reachability searches start where
//! a chart without terminators starts and ends, node fills reach the DOT
//! output, message kinds keep distinct Mermaid arrows, and distinct shapes
//! keep distinct draw.io styles.

use vstd::prelude::*;

use crate::engine::import::{
    ensure_spec, node_keys, node_token_spec, split_from, statement_spec, ImportState, NodeM,
    NodeToken, Split, Step,
};
use crate::engine::validate::{
    boundary_ids, g3_dead_end_msg, g3_node, g3_unreached_msg, is_boundary, is_walk, link_at, linked,
    reachable, search_seeds,
};
use crate::engine::{first_index, lemma_first_index, lemma_first_index_push, Flowchart, Node, Shape};
use crate::engine::export::{dot_node_line, dot_style_parts, dot_style_spec, to_dot_spec};
use crate::engine::drawio::{drawio_style_spec, shape_style_spec};
use crate::sequence::export::{mermaid_message, mermaid_messages, mermaid_participants};
use crate::sequence::{MessageKind, Sequence};
use crate::text::{concat_map, ident_spec, is_blank, join_spec, occurs_at};

verus! {

/// The node a token names, once the token is read: it exists, and carries
/// the shape and the label the token gives.
pub open spec fn token_applied(ns: Seq<NodeM>, t: NodeToken) -> bool {
    match first_index(node_keys(ns), t.0) {
        Some(i) => {
            &&& (t.1 matches Some(sh) ==> ns[i].2 == sh)
            &&& (t.2 matches Some(l) ==> ns[i].1 == l)
        },
        None => false,
    }
}

/// Reading a node token applies it, whether the node is new or was read
/// before: afterwards the node carries the shape and label the token gives,
/// and every node with another id is as it was. (A token whose id is blank
/// and new is refused.)
pub proof fn law_node_token_applied(nodes: Seq<NodeM>, t: NodeToken)
    requires
        !is_blank(t.0) || first_index(node_keys(nodes), t.0) is Some,
    ensures
        ensure_spec(nodes, t) matches Ok(ns) && token_applied(ns, t) && ns.len() >= nodes.len()
            && forall|j: int| 0 <= j < nodes.len() && nodes[j].0 != t.0 ==> #[trigger] ns[j] == nodes[j],
{
    let keys = node_keys(nodes);
    lemma_first_index(keys, t.0);
    match first_index(keys, t.0) {
        Some(i) => {
            assert(keys[i] == nodes[i].0);
            match ensure_spec(nodes, t) {
                Ok(ns) => {
                    assert(node_keys(ns) =~= keys);
                },
                Err(_) => {},
            }
        },
        None => {
            let ns = ensure_spec(nodes, t)->Ok_0;
            let n = (t.0, match t.2 {
                Some(l) => l,
                None => t.0,
            }, match t.1 {
                Some(sh) => sh,
                None => Shape::Rectangle,
            });
            assert(ns == nodes.push(n));
            assert(node_keys(ns) =~= keys.push(t.0));
            lemma_first_index_push(keys, t.0, t.0);
        },
    }
}

/// A statement line applies its node tokens: after a node statement the
/// node carries what its token gives; after an edge statement the target
/// does, and so does the source unless the target names the same node (the
/// later token wins).
pub proof fn law_statement_applies_tokens(st: ImportState, line: Seq<char>)
    ensures
        match statement_spec(st, line) {
            Step::Next(st2) => match split_from(line, 0) {
                Split::NoEdge => node_token_spec(line) matches Ok(t) && token_applied(st2.1, t),
                Split::Edge(l, _, _, _, r) => node_token_spec(l) matches Ok(a) && node_token_spec(r) matches Ok(b)
                    && token_applied(st2.1, b) && (a.0 != b.0 ==> token_applied(st2.1, a)),
                Split::Unreadable => false,
            },
            _ => true,
        },
{
    match split_from(line, 0) {
        Split::NoEdge => {
            if let Ok(t) = node_token_spec(line) {
                if let Ok(ns) = ensure_spec(st.1, t) {
                    lemma_ensure_ok(st.1, t);
                    law_node_token_applied(st.1, t);
                }
            }
        },
        Split::Edge(l, _, _, _, r) => {
            if let Ok(a) = node_token_spec(l) {
                if let Ok(b) = node_token_spec(r) {
                    if let Ok(n1) = ensure_spec(st.1, a) {
                        if let Ok(n2) = ensure_spec(n1, b) {
                            lemma_ensure_ok(st.1, a);
                            lemma_ensure_ok(n1, b);
                            law_node_token_applied(st.1, a);
                            law_node_token_applied(n1, b);
                            if a.0 != b.0 {
                                lemma_applied_kept(n1, n2, a, b);
                            }
                        }
                    }
                }
            }
        },
        Split::Unreadable => {},
    }
}

/// A token that reads without error names a node that is not blank, or one
/// already read.
proof fn lemma_ensure_ok(nodes: Seq<NodeM>, t: NodeToken)
    requires
        ensure_spec(nodes, t) is Ok,
    ensures
        !is_blank(t.0) || first_index(node_keys(nodes), t.0) is Some,
{
}

/// Applying a token for another node keeps what an earlier token applied.
proof fn lemma_applied_kept(n1: Seq<NodeM>, n2: Seq<NodeM>, a: NodeToken, b: NodeToken)
    requires
        token_applied(n1, a),
        ensure_spec(n1, b) == Ok::<_, (crate::engine::import::ErrKind, Seq<char>)>(n2),
        a.0 != b.0,
        n2.len() >= n1.len(),
        forall|j: int| 0 <= j < n1.len() && n1[j].0 != b.0 ==> #[trigger] n2[j] == n1[j],
    ensures
        token_applied(n2, a),
{
    let k1 = node_keys(n1);
    let k2 = node_keys(n2);
    lemma_first_index(k1, a.0);
    let i = first_index(k1, a.0)->0;
    assert(k1[i] == n1[i].0);
    assert(n2[i] == n1[i]);
    assert forall|j: int| 0 <= j < i implies k2[j] != a.0 by {
        assert(k1[j] != a.0);
        if n1[j].0 != b.0 {
            assert(n2[j] == n1[j]);
        } else {
            assert(k2[j] == n2[j].0);
            lemma_first_index(k1, b.0);
            match first_index(k1, b.0) {
                Some(bi) => {
                    assert(k2 =~= node_keys(n2));
                    assert(node_keys(n2) =~= k1) by {
                        assert(n2 == n1.update(bi, n2[bi]));
                    }
                },
                None => {},
            }
        }
    }
    assert(k2[i] == a.0);
    crate::engine::lemma_first_index_at(k2, a.0, i);
}

/// With no terminator of that kind among the nodes, there are no such
/// boundary ids.
proof fn lemma_no_boundary(fc: Flowchart, nodes: Seq<Node>, start: bool)
    requires
        forall|i: int| 0 <= i < nodes.len() ==> !is_boundary(fc, #[trigger] nodes[i], start),
    ensures
        boundary_ids(fc, nodes, start) == Seq::<Seq<char>>::empty(),
    decreases nodes.len(),
{
    if nodes.len() > 0 {
        assert forall|i: int| 0 <= i < nodes.drop_last().len() implies !is_boundary(
            fc,
            #[trigger] nodes.drop_last()[i],
            start,
        ) by {
            assert(nodes.drop_last()[i] == nodes[i]);
        }
        lemma_no_boundary(fc, nodes.drop_last(), start);
        assert(!is_boundary(fc, nodes[nodes.len() - 1], start));
        assert(Seq::<Seq<char>>::empty() + Seq::<Seq<char>>::empty() =~= Seq::<Seq<char>>::empty());
    }
}

/// A walk from `a` to `b` along the edges, read backwards, is a walk from
/// `b` to `a`.
proof fn lemma_reverse_walk(edges: Seq<crate::engine::Edge>, a: Seq<char>, b: Seq<char>)
    requires
        reachable(edges, true, seq![a], b),
    ensures
        reachable(edges, false, seq![b], a),
{
    let p = choose|p: Seq<Seq<char>>| #[trigger] is_walk(edges, true, seq![a], p) && p.last() == b;
    let n = p.len();
    let q = Seq::new(n, |i: int| p[n - 1 - i]);
    assert forall|i: int| 0 <= i < q.len() - 1 implies #[trigger] linked(edges, false, q[i], q[i + 1]) by {
        let j = n - 2 - i;
        assert(linked(edges, true, p[j], p[j + 1]));
        let k = choose|k: int| 0 <= k < edges.len() && #[trigger] link_at(edges, true, k, p[j], p[j + 1]);
        assert(q[i] == p[j + 1] && q[i + 1] == p[j]);
        assert(link_at(edges, false, k, q[i], q[i + 1]));
    }
    assert(q[0] == b);
    assert(seq![b].contains(q[0])) by {
        assert(seq![b][0] == b);
    }
    assert(seq![a].contains(p[0]));
    assert(p[0] == a);
    assert(q.last() == a);
    assert(is_walk(edges, false, seq![b], q));
}

/// In a chart with no start terminator, the forward search starts at the
/// first node: no node that a walk from the first node reaches is reported
/// as unreachable from a start.
pub proof fn law_g3_start_is_first_node(fc: Flowchart, page: int, i: int)
    requires
        0 <= i < fc.nodes@.len(),
        forall|j: int| 0 <= j < fc.nodes@.len() ==> !is_boundary(fc, #[trigger] fc.nodes@[j], true),
        reachable(fc.edges@, true, seq![fc.nodes@[0].id@], fc.nodes@[i].id@),
    ensures
        !g3_node(fc, page)(fc.nodes@[i]).contains((page, "G3"@, g3_unreached_msg(fc.nodes@[i].id@))),
{
    lemma_no_boundary(fc, fc.nodes@, true);
    assert(search_seeds(fc, true) == seq![fc.nodes@[0].id@]);
    let id = fc.nodes@[i].id@;
    lemma_messages_differ(id);
}

/// In a chart with no end terminator, the backward search starts at the
/// last node: no node with a walk to the last node is reported as unable to
/// reach an end.
pub proof fn law_g3_end_is_last_node(fc: Flowchart, page: int, i: int)
    requires
        0 <= i < fc.nodes@.len(),
        forall|j: int| 0 <= j < fc.nodes@.len() ==> !is_boundary(fc, #[trigger] fc.nodes@[j], false),
        reachable(fc.edges@, true, seq![fc.nodes@[i].id@], fc.nodes@.last().id@),
    ensures
        !g3_node(fc, page)(fc.nodes@[i]).contains((page, "G3"@, g3_dead_end_msg(fc.nodes@[i].id@))),
{
    lemma_no_boundary(fc, fc.nodes@, false);
    assert(search_seeds(fc, false) == seq![fc.nodes@.last().id@]);
    let id = fc.nodes@[i].id@;
    lemma_reverse_walk(fc.edges@, id, fc.nodes@.last().id@);
    lemma_messages_differ(id);
}

/// The two G3 messages of a node differ.
proof fn lemma_messages_differ(id: Seq<char>)
    ensures
        g3_unreached_msg(id) != g3_dead_end_msg(id),
{
    reveal_strlit("node '");
    reveal_strlit("' is not reachable from a start");
    reveal_strlit("' cannot reach an end");
    assert(g3_unreached_msg(id).len() != g3_dead_end_msg(id).len());
}

/// `p` stands somewhere in `s`.
pub open spec fn contains_text(s: Seq<char>, p: Seq<char>) -> bool {
    exists|i: int| #[trigger] occurs_at(s, p, i)
}

proof fn lemma_contains_in(x: Seq<char>, s: Seq<char>, y: Seq<char>, p: Seq<char>, i: int)
    requires
        occurs_at(s, p, i),
    ensures
        occurs_at(x + s + y, p, x.len() + i),
{
    assert((x + s + y).subrange(x.len() + i, x.len() + i + p.len()) =~= s.subrange(i, i + p.len()));
}

/// A joined list starts with its first part.
proof fn lemma_join_starts(parts: Seq<Seq<char>>, sep: Seq<char>)
    requires
        parts.len() > 0,
    ensures
        occurs_at(join_spec(parts, sep), parts[0], 0),
    decreases parts.len(),
{
    if parts.len() == 1 {
        assert(join_spec(parts, sep).subrange(0, parts[0].len() as int) =~= parts[0]);
    } else {
        lemma_join_starts(parts.drop_last(), sep);
        let j = join_spec(parts.drop_last(), sep);
        assert(parts.drop_last()[0] == parts[0]);
        assert((j + sep + parts.last()).subrange(0, parts[0].len() as int) =~= j.subrange(0, parts[0].len() as int));
    }
}

/// The text of one item stands in the concatenation.
proof fn lemma_concat_map_has<T>(s: Seq<T>, f: spec_fn(T) -> Seq<char>, k: int, p: Seq<char>, i: int)
    requires
        0 <= k < s.len(),
        occurs_at(f(s[k]), p, i),
    ensures
        contains_text(concat_map(s, f), p),
    decreases s.len(),
{
    let d = s.drop_last();
    if k == s.len() - 1 {
        lemma_contains_in(concat_map(d, f), f(s.last()), Seq::<char>::empty(), p, i);
        assert(concat_map(d, f) + f(s.last()) + Seq::<char>::empty() =~= concat_map(s, f));
        assert(occurs_at(concat_map(s, f), p, concat_map(d, f).len() + i));
    } else {
        assert(d[k] == s[k]);
        lemma_concat_map_has(d, f, k, p, i);
        let j = choose|j: int| #[trigger] occurs_at(concat_map(d, f), p, j);
        lemma_contains_in(Seq::<char>::empty(), concat_map(d, f), f(s.last()), p, j);
        assert(Seq::<char>::empty() + concat_map(d, f) + f(s.last()) =~= concat_map(s, f));
        assert(occurs_at(concat_map(s, f), p, j));
    }
}

/// The DOT attribute a fill color asks for.
pub open spec fn dot_fill(f: Seq<char>) -> Seq<char> {
    "style=filled, fillcolor=\""@ + f + "\""@
}

/// A style that sets fill `f` gives DOT attributes that fill the node with
/// `f`.
pub proof fn law_dot_style_fills(st: crate::engine::Style)
    ensures
        st.fill matches Some(f) ==> contains_text(dot_style_spec(st), dot_fill(f@)),
{
    if let Some(f) = st.fill {
        let parts = dot_style_parts(st);
        assert(parts[0] == dot_fill(f@));
        lemma_join_starts(parts, ", "@);
        lemma_contains_in(", "@, join_spec(parts, ", "@), Seq::<char>::empty(), dot_fill(f@), 0);
        assert(", "@ + join_spec(parts, ", "@) + Seq::<char>::empty() =~= dot_style_spec(st));
    }
}

/// Every node whose style sets fill `f` is written to DOT filled with `f`:
/// the chart's DOT text holds `style=filled, fillcolor="f"`.
pub proof fn law_dot_fills_nodes(fc: Flowchart, k: int)
    requires
        0 <= k < fc.nodes@.len(),
    ensures
        fc.nodes@[k].style.fill matches Some(f) ==> contains_text(to_dot_spec(fc), dot_fill(f@)),
{
    let n = fc.nodes@[k];
    if let Some(f) = n.style.fill {
        law_dot_style_fills(n.style);
        let j = choose|j: int| #[trigger] occurs_at(dot_style_spec(n.style), dot_fill(f@), j);
        let pre = "  "@ + crate::engine::export::node_token(n.id@) + " [label=\""@
            + crate::engine::export::dot_escape_spec(crate::engine::export::plain_label_spec(n))
            + "\", shape="@ + crate::engine::export::dot_shape_spec(n.shape);
        lemma_contains_in(pre, dot_style_spec(n.style), "];\n"@, dot_fill(f@), j);
        assert(pre + dot_style_spec(n.style) + "];\n"@ =~= dot_node_line()(n));
        lemma_concat_map_has(fc.nodes@, dot_node_line(), k, dot_fill(f@), pre.len() + j);
        let c = concat_map(fc.nodes@, dot_node_line());
        let i = choose|i: int| #[trigger] occurs_at(c, dot_fill(f@), i);
        let head = "digraph G {\n"@ + "  rankdir="@ + fc.direction.dot_spec() + ";\n"@
            + "  node [fontname=\"Helvetica\"];\n"@ + "  edge [fontname=\"Helvetica\"];\n"@
            + (match fc.title {
            Some(t) => "  label=\""@ + crate::engine::export::dot_escape_spec(t@) + "\";\n  labelloc=t;\n"@,
            None => Seq::empty(),
        }) + crate::engine::export::dot_clusters(fc.subgraphs@);
        let tail = concat_map(fc.edges@, crate::engine::export::dot_edge_line()) + "}\n"@;
        lemma_contains_in(head, c, tail, dot_fill(f@), i);
        assert(head + c + tail =~= to_dot_spec(fc));
        assert(occurs_at(to_dot_spec(fc), dot_fill(f@), head.len() + i));
    }
}

/// Message kinds keep distinct Mermaid arrows: a synchronous call, an
/// asynchronous message, a reply and a destruction each read differently.
/// Only a creation shares the call's arrow, Mermaid having none of its own.
pub proof fn law_message_arrows_distinct(k1: MessageKind, k2: MessageKind)
    requires
        k1 != k2,
        !(k1 == MessageKind::Create && k2 == MessageKind::Sync),
        !(k1 == MessageKind::Sync && k2 == MessageKind::Create),
    ensures
        k1.mermaid_spec() != k2.mermaid_spec(),
{
    reveal_strlit("->>");
    reveal_strlit("-)");
    reveal_strlit("-->>");
    reveal_strlit("-x");
    assert("->>"@[1] == '>');
    assert("-)"@[1] == ')');
    assert("-->>"@[1] == '-');
    assert("-x"@[1] == 'x');
}

/// A message's line: its sender, its kind's arrow and its receiver, then
/// its text.
pub open spec fn message_text(m: crate::sequence::Message) -> Seq<char> {
    ident_spec(m.from@, "p_"@) + m.kind.mermaid_spec() + ident_spec(m.to@, "p_"@) + ": "@ + m.label@
}

proof fn lemma_messages_have(ms: Seq<crate::sequence::Message>, k: int)
    requires
        0 <= k < ms.len(),
    ensures
        contains_text(mermaid_messages(ms), message_text(ms[k])),
    decreases ms.len(),
{
    let m = ms[k];
    let t = message_text(m);
    let line = mermaid_message(m);
    let rest = "\n"@ + (if m.kind == MessageKind::Destroy {
        "    destroy "@ + ident_spec(m.to@, "p_"@) + "\n"@
    } else {
        Seq::empty()
    });
    assert(t.subrange(0, t.len() as int) =~= t);
    assert(occurs_at(t, t, 0));
    lemma_contains_in("    "@, t, rest, t, 0);
    assert("    "@ + t + rest =~= line);
    reveal_strlit("    ");
    assert(occurs_at(line, t, 4));
    let d = ms.drop_last();
    if k == ms.len() - 1 {
        lemma_contains_in(mermaid_messages(d), line, Seq::<char>::empty(), t, 4);
        assert(mermaid_messages(d) + line + Seq::<char>::empty() =~= mermaid_messages(ms));
        assert(occurs_at(mermaid_messages(ms), t, mermaid_messages(d).len() as int + 4));
    } else {
        assert(d[k] == ms[k]);
        lemma_messages_have(d, k);
        let j = choose|j: int| #[trigger] occurs_at(mermaid_messages(d), t, j);
        lemma_contains_in(Seq::<char>::empty(), mermaid_messages(d), mermaid_message(ms.last()), t, j);
        assert(Seq::<char>::empty() + mermaid_messages(d) + mermaid_message(ms.last()) =~= mermaid_messages(ms));
        assert(occurs_at(mermaid_messages(ms), t, j));
    }
}

/// Every message of a sequence is written to Mermaid with its kind's arrow
/// between its sender and its receiver.
pub proof fn law_sequence_mermaid_has_messages(sq: Sequence, k: int)
    requires
        0 <= k < sq.messages@.len(),
    ensures
        contains_text(crate::sequence::export::mermaid_spec(sq), message_text(sq.messages@[k])),
{
    let t = message_text(sq.messages@[k]);
    lemma_messages_have(sq.messages@, k);
    let j = choose|j: int| #[trigger] occurs_at(mermaid_messages(sq.messages@), t, j);
    let head = "sequenceDiagram\n"@ + mermaid_participants(sq.participants@);
    lemma_contains_in(head, mermaid_messages(sq.messages@), Seq::<char>::empty(), t, j);
    assert(head + mermaid_messages(sq.messages@) + Seq::<char>::empty() =~= crate::sequence::export::mermaid_spec(sq));
    assert(occurs_at(crate::sequence::export::mermaid_spec(sq), t, head.len() + j));
}

/// Distinct shapes keep distinct draw.io base styles, so each is drawn as
/// itself.
pub proof fn law_shape_styles_distinct(s1: Shape, s2: Shape)
    requires
        s1 != s2,
    ensures
        shape_style_spec(s1) != shape_style_spec(s2),
{
    reveal_strlit("rounded=0;whiteSpace=wrap;html=1;");
    reveal_strlit("rounded=1;whiteSpace=wrap;html=1;");
    reveal_strlit("rounded=1;whiteSpace=wrap;html=1;arcSize=40;");
    reveal_strlit("shape=process;whiteSpace=wrap;html=1;");
    reveal_strlit("shape=cylinder3;whiteSpace=wrap;html=1;boundedLbl=1;");
    reveal_strlit("ellipse;whiteSpace=wrap;html=1;aspect=fixed;");
    reveal_strlit("ellipse;shape=doubleEllipse;whiteSpace=wrap;html=1;aspect=fixed;");
    reveal_strlit("rhombus;whiteSpace=wrap;html=1;");
    reveal_strlit("shape=hexagon;perimeter=hexagonPerimeter2;whiteSpace=wrap;html=1;");
    reveal_strlit("shape=parallelogram;perimeter=parallelogramPerimeter;whiteSpace=wrap;html=1;");
    reveal_strlit("shape=parallelogram;perimeter=parallelogramPerimeter;whiteSpace=wrap;html=1;flipH=1;");
    reveal_strlit("shape=trapezoid;perimeter=trapezoidPerimeter;whiteSpace=wrap;html=1;");
    reveal_strlit("shape=trapezoid;perimeter=trapezoidPerimeter;whiteSpace=wrap;html=1;direction=south;");
    reveal_strlit("shape=note;whiteSpace=wrap;html=1;size=14;");
    reveal_strlit("shape=card;whiteSpace=wrap;html=1;size=14;");
    reveal_strlit("shape=document;whiteSpace=wrap;html=1;boundedLbl=1;");
    reveal_strlit("verticalAlign=top;align=left;overflow=fill;html=1;whiteSpace=wrap;");
    let a = shape_style_spec(s1);
    let b = shape_style_spec(s2);
    if a == b {
        assert(a.len() == b.len());
        assert(a[0] == b[0]);
        assert(a[6] == b[6]);
        assert(a[7] == b[7]);
        assert(a[8] == b[8]);
    }
}

/// A node without an image is drawn from its shape's base style: the
/// draw.io style of a shape starts with that shape's base style.
pub proof fn law_drawio_style_starts_with_shape(sh: Shape, st: crate::engine::Style)
    ensures
        occurs_at(drawio_style_spec(sh, st, None), shape_style_spec(sh), 0),
{
    let d = drawio_style_spec(sh, st, None);
    assert(d.subrange(0, shape_style_spec(sh).len() as int) =~= shape_style_spec(sh));
}

/// A joined list holds each of its parts.
proof fn lemma_join_has(parts: Seq<Seq<char>>, sep: Seq<char>, i: int)
    requires
        0 <= i < parts.len(),
    ensures
        contains_text(join_spec(parts, sep), parts[i]),
    decreases parts.len(),
{
    let p = parts[i];
    assert(p.subrange(0, p.len() as int) =~= p);
    assert(occurs_at(p, p, 0));
    if parts.len() == 1 {
        lemma_join_starts(parts, sep);
    } else {
        let d = parts.drop_last();
        let j = join_spec(d, sep);
        if i == parts.len() - 1 {
            lemma_contains_in(j + sep, p, Seq::<char>::empty(), p, 0);
            assert(j + sep + p + Seq::<char>::empty() =~= join_spec(parts, sep));
            assert(occurs_at(join_spec(parts, sep), p, (j + sep).len() as int));
        } else {
            assert(d[i] == parts[i]);
            lemma_join_has(d, sep, i);
            let k = choose|k: int| #[trigger] occurs_at(j, p, k);
            lemma_contains_in(Seq::<char>::empty(), j, sep + parts.last(), p, k);
            assert(Seq::<char>::empty() + j + (sep + parts.last()) =~= join_spec(parts, sep));
            assert(occurs_at(join_spec(parts, sep), p, k));
        }
    }
}

/// A style's DOT attributes hold each color it sets: the fill as a filled
/// style, the stroke as the line color, the text color as the font color.
pub proof fn law_dot_style_colors(st: crate::engine::Style)
    ensures
        st.fill matches Some(f) ==> contains_text(dot_style_spec(st), dot_fill(f@)),
        st.stroke matches Some(c) ==> contains_text(dot_style_spec(st), "color=\""@ + c@ + "\""@),
        st.text_color matches Some(c) ==> contains_text(dot_style_spec(st), "fontcolor=\""@ + c@ + "\""@),
{
    let parts = dot_style_parts(st);
    let fo: int = if st.fill is Some { 1 } else { 0 };
    let so: int = if st.stroke is Some { 1 } else { 0 };
    assert forall|i: int| 0 <= i < parts.len() implies contains_text(dot_style_spec(st), #[trigger] parts[i]) by {
        lemma_join_has(parts, ", "@, i);
        let k = choose|k: int| #[trigger] occurs_at(join_spec(parts, ", "@), parts[i], k);
        lemma_contains_in(", "@, join_spec(parts, ", "@), Seq::<char>::empty(), parts[i], k);
        assert(", "@ + join_spec(parts, ", "@) + Seq::<char>::empty() =~= dot_style_spec(st));
    }
    if let Some(f) = st.fill {
        assert(parts[0] == dot_fill(f@));
    }
    if let Some(c) = st.stroke {
        assert(parts[fo] == "color=\""@ + c@ + "\""@);
    }
    if let Some(c) = st.text_color {
        assert(parts[fo + so] == "fontcolor=\""@ + c@ + "\""@);
    }
}

/// The shapes draw.io names as the library does are drawn by that name:
/// their base style holds `shape=` and the shape's own name.
pub proof fn law_named_shapes_drawn_by_name(sh: Shape)
    requires
        sh == Shape::Hexagon || sh == Shape::Parallelogram || sh == Shape::Trapezoid
            || sh == Shape::Note || sh == Shape::Card || sh == Shape::Document || sh == Shape::Cylinder,
    ensures
        contains_text(shape_style_spec(sh), "shape="@ + sh.label_spec()),
{
    reveal_strlit("shape=");
    reveal_strlit("hexagon");
    reveal_strlit("parallelogram");
    reveal_strlit("trapezoid");
    reveal_strlit("note");
    reveal_strlit("card");
    reveal_strlit("document");
    reveal_strlit("cylinder");
    reveal_strlit("shape=cylinder3;whiteSpace=wrap;html=1;boundedLbl=1;");
    reveal_strlit("shape=hexagon;perimeter=hexagonPerimeter2;whiteSpace=wrap;html=1;");
    reveal_strlit("shape=parallelogram;perimeter=parallelogramPerimeter;whiteSpace=wrap;html=1;");
    reveal_strlit("shape=trapezoid;perimeter=trapezoidPerimeter;whiteSpace=wrap;html=1;");
    reveal_strlit("shape=note;whiteSpace=wrap;html=1;size=14;");
    reveal_strlit("shape=card;whiteSpace=wrap;html=1;size=14;");
    reveal_strlit("shape=document;whiteSpace=wrap;html=1;boundedLbl=1;");
    let w = "shape="@ + sh.label_spec();
    assert(shape_style_spec(sh).subrange(0, w.len() as int) =~= w);
    assert(occurs_at(shape_style_spec(sh), w, 0));
}

} // verus!
