//! Properties that hold across the library's operations: names that read
//! back as what they name, styles merging as overlays, exports that carry
//! no stray markup, step numbers counting up, and imported edges joining
//! imported nodes.

use vstd::prelude::*;

use crate::engine::chart::keeps_edge;
use crate::engine::kinds::{ContainerKind, Direction, LayoutKind, Shape, Theme};
use crate::engine::steps::{
    dedup, enqueue_succ, is_step_id, lemma_enqueue_measure, number_rest, numbered, step_numbers,
    targets, walk_numbers, walk_seeds, Numbered,
};
use crate::engine::export::{squash_ws, strip_html_spec, strip_tags};
use crate::engine::import::{
    shape_body_from, unquote_spec, chart_read, ends, content_lines, edge_m, ensure_spec, header_spec, import_spec, line_step, lines_spec,
    node_keys, node_token_spec, run_lines, split_from, starts, ImportState, NodeM, NodeToken, Split,
    Step,
};
use crate::engine::validate::unseen;
use crate::engine::{first_index, lemma_first_index, node_ids, overlay, Edge, Flowchart, Node, Style};
use crate::sequence::MessageKind;
use crate::server::{file_char, lead_dashes, sanitize_spec, squeeze_dashes, trail_dashes};
use crate::text::{
    occurs_at, replace_from, replace_spec, char_is_whitespace, flat_map_chars, key_spec, lead_ws, trail_ws, lower_char_spec, upper_char_spec, lemma_flat_map_chars_add, lower_spec, trim_spec,
    upper_spec, xml_escape_char, xml_escape_spec,
};

verus! {

/// A name written with lower-case ASCII letters and `_` is its own lookup
/// key and its own lower-case form.
proof fn lemma_plain_name(s: Seq<char>)
    requires
        forall|i: int| 0 <= i < s.len() ==> ('a' <= #[trigger] s[i] <= 'z' || s[i] == '_'),
    ensures
        key_spec(s) == s,
        lower_spec(s) == s,
{
    assert(key_spec(s) =~= s);
    assert(lower_spec(s) =~= s);
}

/// Every container kind's name parses back to that kind.
pub proof fn law_container_kind_names_parse(k: ContainerKind)
    ensures
        ContainerKind::parse_spec(lower_spec(k.label_spec())) == Some(k),
{
    reveal_strlit("group");
    reveal_strlit("container");
    reveal_strlit("box");
    reveal_strlit("swimlane");
    reveal_strlit("lane");
    reveal_strlit("pool");
    assert("group"@[0] == 'g');
    assert("container"@[0] == 'c');
    assert("box"@[0] == 'b');
    assert("swimlane"@[0] == 's');
    assert("lane"@[0] == 'l');
    assert("pool"@[0] == 'p');
    lemma_plain_name(k.label_spec());
}

/// Every theme's name parses back to that theme.
pub proof fn law_theme_names_parse(t: Theme)
    ensures
        Theme::parse_spec(lower_spec(t.label_spec())) == Some(t),
{
    reveal_strlit("blue");
    reveal_strlit("default");
    reveal_strlit("green");
    reveal_strlit("gray");
    reveal_strlit("grey");
    reveal_strlit("mono");
    reveal_strlit("purple");
    reveal_strlit("orange");
    reveal_strlit("dark");
    reveal_strlit("midnight");
    assert("blue"@[0] == 'b');
    assert("blue"@[2] == 'u');
    assert("default"@[0] == 'd');
    assert("default"@[2] == 'f');
    assert("green"@[0] == 'g');
    assert("green"@[2] == 'e');
    assert("gray"@[0] == 'g');
    assert("gray"@[2] == 'a');
    assert("grey"@[0] == 'g');
    assert("grey"@[2] == 'e');
    assert("mono"@[0] == 'm');
    assert("mono"@[2] == 'n');
    assert("purple"@[0] == 'p');
    assert("purple"@[2] == 'r');
    assert("orange"@[0] == 'o');
    assert("orange"@[2] == 'a');
    assert("dark"@[0] == 'd');
    assert("dark"@[2] == 'r');
    assert("midnight"@[0] == 'm');
    assert("midnight"@[2] == 'd');
    lemma_plain_name(t.label_spec());
}

/// Every layout's name parses back to that layout.
pub proof fn law_layout_names_parse(l: LayoutKind)
    ensures
        LayoutKind::parse_spec(key_spec(l.label_spec())) == Some(l),
{
    reveal_strlit("layered");
    reveal_strlit("flow");
    reveal_strlit("default");
    reveal_strlit("tree");
    reveal_strlit("hierarchy");
    reveal_strlit("org");
    reveal_strlit("mind_map");
    reveal_strlit("mindmap");
    reveal_strlit("radial");
    assert("layered"@[0] == 'l');
    assert("flow"@[0] == 'f');
    assert("default"@[0] == 'd');
    assert("tree"@[0] == 't');
    assert("hierarchy"@[0] == 'h');
    assert("org"@[0] == 'o');
    assert("mind_map"@[0] == 'm');
    assert("mindmap"@[0] == 'm');
    assert("radial"@[0] == 'r');
    lemma_plain_name(l.label_spec());
}

/// Every message kind's name parses back to that kind.
pub proof fn law_message_kind_names_parse(m: MessageKind)
    ensures
        MessageKind::parse_spec(key_spec(m.label_spec())) == Some(m),
{
    reveal_strlit("sync");
    reveal_strlit("call");
    reveal_strlit("->>");
    reveal_strlit("async");
    reveal_strlit("signal");
    reveal_strlit("->");
    reveal_strlit("return");
    reveal_strlit("reply");
    reveal_strlit("-->>");
    reveal_strlit("-->");
    reveal_strlit("create");
    reveal_strlit("new");
    reveal_strlit("destroy");
    reveal_strlit("delete");
    assert("sync"@[0] == 's');
    assert("call"@[0] == 'c');
    assert("->>"@[0] == '-');
    assert("async"@[0] == 'a');
    assert("signal"@[0] == 's');
    assert("->"@[0] == '-');
    assert("return"@[0] == 'r');
    assert("reply"@[0] == 'r');
    assert("-->>"@[0] == '-');
    assert("-->"@[0] == '-');
    assert("create"@[0] == 'c');
    assert("new"@[0] == 'n');
    assert("destroy"@[0] == 'd');
    assert("delete"@[0] == 'd');
    lemma_plain_name(m.label_spec());
}

/// The Mermaid direction token of a direction parses back to it.
pub proof fn law_direction_tokens_parse(d: Direction)
    ensures
        Direction::parse_spec(upper_spec(d.mermaid_spec())) == Some(d),
{
    reveal_strlit("TB");
    reveal_strlit("TD");
    reveal_strlit("DOWN");
    reveal_strlit("BT");
    reveal_strlit("UP");
    reveal_strlit("LR");
    reveal_strlit("RIGHT");
    reveal_strlit("RL");
    reveal_strlit("LEFT");
    assert("TB"@[0] == 'T');
    assert("TB"@[1] == 'B');
    assert("TD"@[0] == 'T');
    assert("TD"@[1] == 'D');
    assert("DOWN"@[0] == 'D');
    assert("DOWN"@[1] == 'O');
    assert("BT"@[0] == 'B');
    assert("BT"@[1] == 'T');
    assert("UP"@[0] == 'U');
    assert("UP"@[1] == 'P');
    assert("LR"@[0] == 'L');
    assert("LR"@[1] == 'R');
    assert("RIGHT"@[0] == 'R');
    assert("RIGHT"@[1] == 'I');
    assert("RL"@[0] == 'R');
    assert("RL"@[1] == 'L');
    assert("LEFT"@[0] == 'L');
    assert("LEFT"@[1] == 'E');
    assert(upper_spec(d.mermaid_spec()) =~= d.mermaid_spec());
}

/// Merging a style that sets nothing changes nothing.
pub proof fn law_merge_nothing(s: Style)
    ensures
        s.merge_spec(Style::empty_spec()) == s,
{
}

/// Merging onto the empty style gives the merged style itself.
pub proof fn law_merge_onto_empty(s: Style)
    ensures
        Style::empty_spec().merge_spec(s) == s,
{
}

/// Merging the same style twice is merging it once.
pub proof fn law_merge_idempotent(s: Style, o: Style)
    ensures
        s.merge_spec(o).merge_spec(o) == s.merge_spec(o),
{
}

/// Only the fields a style sets change: each field of the result is the
/// merged style's when set, else the original's.
pub proof fn law_merge_keeps_unset(s: Style, o: Style)
    ensures
        s.merge_spec(o).fill == overlay(s.fill, o.fill),
        s.merge_spec(o).stroke == overlay(s.stroke, o.stroke),
        s.merge_spec(o).text_color == overlay(s.text_color, o.text_color),
        s.merge_spec(o).stroke_width == overlay(s.stroke_width, o.stroke_width),
        s.merge_spec(o).font_family == overlay(s.font_family, o.font_family),
        s.merge_spec(o).font_size == overlay(s.font_size, o.font_size),
        s.merge_spec(o).bold == overlay(s.bold, o.bold),
        s.merge_spec(o).italic == overlay(s.italic, o.italic),
        s.merge_spec(o).align == overlay(s.align, o.align),
        s.merge_spec(o).opacity == overlay(s.opacity, o.opacity),
        s.merge_spec(o).rounded == overlay(s.rounded, o.rounded),
        s.merge_spec(o).shadow == overlay(s.shadow, o.shadow),
        s.merge_spec(o).dashed == overlay(s.dashed, o.dashed),
        s.merge_spec(o).gradient == overlay(s.gradient, o.gradient),
        s.merge_spec(o).sketch == overlay(s.sketch, o.sketch),
        s.merge_spec(o).glass == overlay(s.glass, o.glass),
{
}

/// After a node is removed, no remaining edge touches it.
pub proof fn law_removed_node_has_no_edges(edges: Seq<Edge>, id: Seq<char>)
    ensures
        forall|k: int|
            0 <= k < edges.filter(keeps_edge(id)).len() ==> (#[trigger] edges.filter(
                keeps_edge(id),
            )[k]).from@ != id && edges.filter(keeps_edge(id))[k].to@ != id,
{
    assert forall|k: int| 0 <= k < edges.filter(keeps_edge(id)).len() implies (#[trigger] edges.filter(
        keeps_edge(id),
    )[k]).from@ != id && edges.filter(keeps_edge(id))[k].to@ != id by {
        broadcast use vstd::seq_lib::group_filter_ensures;
        assert(keeps_edge(id)(edges.filter(keeps_edge(id))[k]));
    }
}


/// Numbers `1, 2, 3, ...` in order.
pub open spec fn counts_up(ns: Seq<Numbered>) -> bool {
    forall|i: int| 0 <= i < ns.len() ==> (#[trigger] ns[i]).1 == i + 1
}

/// Some node with this id is a step rather than a terminator.
pub open spec fn names_step(nodes: Seq<Node>, id: Seq<char>) -> bool {
    exists|k: int| 0 <= k < nodes.len() && (#[trigger] nodes[k]).id@ == id && nodes[k].shape != Shape::Stadium
}

/// Every number is given to a step.
pub open spec fn all_steps(nodes: Seq<Node>, ns: Seq<Numbered>) -> bool {
    forall|i: int| 0 <= i < ns.len() ==> names_step(nodes, (#[trigger] ns[i]).0)
}

proof fn lemma_walk_numbers(fc: Flowchart, seen: Seq<Seq<char>>, queue: Seq<Seq<char>>, numbers: Seq<Numbered>)
    requires
        counts_up(numbers),
        all_steps(fc.nodes@, numbers),
    ensures
        counts_up(walk_numbers(fc, seen, queue, numbers)),
        all_steps(fc.nodes@, walk_numbers(fc, seen, queue, numbers)),
    decreases unseen(targets(fc.edges@), seen), queue.len(),
{
    if queue.len() > 0 {
        let u = queue[0];
        let nums = if is_step_id(fc.nodes@, u) {
            numbers.push((u, numbers.len() + 1int))
        } else {
            numbers
        };
        if is_step_id(fc.nodes@, u) {
            lemma_first_index(node_ids(fc.nodes@), u);
            let k = first_index(node_ids(fc.nodes@), u)->0;
            assert(node_ids(fc.nodes@)[k] == fc.nodes@[k].id@);
            assert(names_step(fc.nodes@, u));
            assert forall|i: int| 0 <= i < nums.len() implies names_step(fc.nodes@, (#[trigger] nums[i]).0) by {
                if i < numbers.len() {
                    assert(nums[i] == numbers[i]);
                }
            }
            assert forall|i: int| 0 <= i < nums.len() implies (#[trigger] nums[i]).1 == i + 1 by {
                if i < numbers.len() {
                    assert(nums[i] == numbers[i]);
                }
            }
        }
        let st = enqueue_succ(fc.edges@, u, seen, queue.drop_first());
        assert forall|k: int| 0 <= k < fc.edges@.len() implies targets(fc.edges@).contains(
            #[trigger] fc.edges@[k].to@,
        ) by {
            assert(targets(fc.edges@)[k] == fc.edges@[k].to@);
        }
        lemma_enqueue_measure(fc.edges@, fc.edges@, u, seen, queue.drop_first());
        lemma_walk_numbers(fc, st.0, st.1, nums);
    }
}

proof fn lemma_number_rest(all: Seq<Node>, nodes: Seq<Node>, numbers: Seq<Numbered>)
    requires
        nodes.len() <= all.len(),
        forall|k: int| 0 <= k < nodes.len() ==> nodes[k] == all[k],
        counts_up(numbers),
        all_steps(all, numbers),
    ensures
        counts_up(number_rest(nodes, numbers)),
        all_steps(all, number_rest(nodes, numbers)),
    decreases nodes.len(),
{
    if nodes.len() > 0 {
        lemma_number_rest(all, nodes.drop_last(), numbers);
        let prev = number_rest(nodes.drop_last(), numbers);
        let n = nodes.last();
        if n.shape != Shape::Stadium && !numbered(prev, n.id@) {
            let r = prev.push((n.id@, prev.len() + 1int));
            assert(all[nodes.len() - 1] == n);
            assert(names_step(all, n.id@));
            assert forall|i: int| 0 <= i < r.len() implies names_step(all, (#[trigger] r[i]).0) && r[i].1 == i + 1 by {
                if i < prev.len() {
                    assert(r[i] == prev[i]);
                }
            }
        }
    }
}

/// Step numbers count up from 1 with no gap, and only steps get one:
/// start and end terminators are never numbered.
pub proof fn law_step_numbers_count_steps(fc: Flowchart)
    ensures
        counts_up(step_numbers(fc)),
        all_steps(fc.nodes@, step_numbers(fc)),
{
    let seeds = dedup(walk_seeds(fc));
    lemma_walk_numbers(fc, seeds, seeds, Seq::empty());
    lemma_number_rest(fc.nodes@, fc.nodes@, walk_numbers(fc, seeds, seeds, Seq::empty()));
}


/// No `<` or `>` anywhere.
pub open spec fn free_of_markup(s: Seq<char>) -> bool {
    forall|i: int| 0 <= i < s.len() ==> #[trigger] s[i] != '<' && s[i] != '>'
}

proof fn lemma_strip_tags_free(s: Seq<char>, n: nat)
    ensures
        free_of_markup(strip_tags(s, n).0),
    decreases n,
{
    if n > 0 && n <= s.len() {
        lemma_strip_tags_free(s, (n - 1) as nat);
        let out = strip_tags(s, (n - 1) as nat).0;
        assert forall|i: int| 0 <= i < out.push(' ').len() implies #[trigger] out.push(' ')[i] != '<'
            && out.push(' ')[i] != '>' by {
            if i < out.len() {
                assert(out.push(' ')[i] == out[i]);
            }
        }
        assert forall|i: int| 0 <= i < out.push(s[n - 1]).len() && s[n - 1] != '<' && s[n - 1]
            != '>' implies #[trigger] out.push(s[n - 1])[i] != '<' && out.push(s[n - 1])[i] != '>' by {
            if i < out.len() {
                assert(out.push(s[n - 1])[i] == out[i]);
            }
        }
    }
}

proof fn lemma_squash_free(t: Seq<char>, n: nat)
    requires
        free_of_markup(t),
    ensures
        free_of_markup(squash_ws(t, n).0),
    decreases n,
{
    if n > 0 && n <= t.len() {
        lemma_squash_free(t, (n - 1) as nat);
        let acc = squash_ws(t, (n - 1) as nat).0;
        let c = t[n - 1];
        assert(c != '<' && c != '>');
        let a2 = if squash_ws(t, (n - 1) as nat).1 { acc.push(' ') } else { acc };
        assert forall|i: int| 0 <= i < a2.len() implies #[trigger] a2[i] != '<' && a2[i] != '>' by {
            if i < acc.len() {
                assert(a2[i] == acc[i]);
            }
        }
        assert forall|i: int| 0 <= i < a2.push(c).len() implies #[trigger] a2.push(c)[i] != '<'
            && a2.push(c)[i] != '>' by {
            if i < a2.len() {
                assert(a2.push(c)[i] == a2[i]);
            }
        }
    }
}

/// Stripping an HTML label leaves plain text: no tag brackets remain.
pub proof fn law_stripped_html_has_no_markup(s: Seq<char>)
    ensures
        free_of_markup(strip_html_spec(s)),
{
    lemma_strip_tags_free(s, s.len());
    let t = strip_tags(s, s.len()).0;
    lemma_squash_free(t, t.len());
}


/// Every edge read so far joins two nodes read so far.
pub open spec fn edges_join(st: ImportState) -> bool {
    forall|k: int|
        0 <= k < st.2.len() ==> node_keys(st.1).contains((#[trigger] st.2[k]).0) && node_keys(
            st.1,
        ).contains(st.2[k].1)
}

proof fn lemma_ensure_keeps(nodes: Seq<NodeM>, t: NodeToken)
    requires
        ensure_spec(nodes, t) is Ok,
    ensures
        forall|x: Seq<char>| node_keys(nodes).contains(x) ==> #[trigger] node_keys(ensure_spec(nodes, t)->Ok_0).contains(x),
        node_keys(ensure_spec(nodes, t)->Ok_0).contains(t.0),
{
    let ns = ensure_spec(nodes, t)->Ok_0;
    lemma_first_index(node_keys(nodes), t.0);
    match first_index(node_keys(nodes), t.0) {
        Some(i) => {
            assert(node_keys(ns) =~= node_keys(nodes));
            assert(node_keys(nodes)[i] == t.0);
        },
        None => {
            assert(node_keys(ns) =~= node_keys(nodes).push(t.0));
            assert(node_keys(ns)[node_keys(nodes).len() as int] == t.0);
            assert forall|x: Seq<char>| node_keys(nodes).contains(x) implies #[trigger] node_keys(ns).contains(x) by {
                let j = choose|j: int| 0 <= j < node_keys(nodes).len() && node_keys(nodes)[j] == x;
                assert(node_keys(ns)[j] == x);
            }
        },
    }
}

proof fn lemma_line_keeps_edges_joined(st: ImportState, line: Seq<char>)
    requires
        edges_join(st),
    ensures
        line_step(st, line) matches Step::Next(s2) ==> edges_join(s2),
{
    let lower = crate::text::lower_spec(line);
    if starts(lower, "subgraph"@) {
    } else if lower == "end"@ {
    } else if starts(lower, "direction "@) {
    } else if starts(lower, "style "@) || starts(lower, "classdef"@) || starts(lower, "class "@) {
    } else {
        match split_from(line, 0) {
            Split::Unreadable => {},
            Split::NoEdge => {
                if let Ok(t) = node_token_spec(line) {
                    if ensure_spec(st.1, t) is Ok {
                        lemma_ensure_keeps(st.1, t);
                    }
                }
            },
            Split::Edge(l, ls, ar, lb, r) => {
                if let (Ok(a), Ok(b)) = (node_token_spec(l), node_token_spec(r)) {
                    if ensure_spec(st.1, a) is Ok {
                        let n1 = ensure_spec(st.1, a)->Ok_0;
                        lemma_ensure_keeps(st.1, a);
                        if ensure_spec(n1, b) is Ok {
                            let n2 = ensure_spec(n1, b)->Ok_0;
                            lemma_ensure_keeps(n1, b);
                            let e2 = st.2.push((a.0, b.0, lb, ls, ar));
                            assert forall|k: int| 0 <= k < e2.len() implies node_keys(n2).contains(
                                (#[trigger] e2[k]).0,
                            ) && node_keys(n2).contains(e2[k].1) by {
                                if k < st.2.len() {
                                    assert(e2[k] == st.2[k]);
                                    assert(node_keys(st.1).contains(st.2[k].0));
                                    assert(node_keys(n1).contains(st.2[k].0));
                                    assert(node_keys(n1).contains(st.2[k].1));
                                }
                            }
                        }
                    }
                }
            },
        }
    }
}

proof fn lemma_run_keeps_edges_joined(lines: Seq<Seq<char>>, st: ImportState)
    requires
        edges_join(st),
    ensures
        run_lines(lines, st) matches Step::Next(s2) ==> edges_join(s2),
    decreases lines.len(),
{
    if lines.len() > 0 {
        lemma_line_keeps_edges_joined(st, trim_spec(lines[0]));
        if let Step::Next(s2) = line_step(st, trim_spec(lines[0])) {
            lemma_run_keeps_edges_joined(lines.drop_first(), s2);
        }
    }
}

/// Every edge of an imported chart joins two of its nodes: an edge
/// statement brings in the nodes it names.
pub proof fn law_imported_edges_join_nodes(src: Seq<char>, fc: Flowchart)
    requires
        import_spec(src) matches Step::Next(st) && chart_read(fc, st),
    ensures
        forall|k: int|
            0 <= k < fc.edges@.len() ==> fc.has_node_spec((#[trigger] fc.edges@[k]).from@)
                && fc.has_node_spec(fc.edges@[k].to@),
{
    let ls = content_lines(lines_spec(src));
    let dir = header_spec(trim_spec(ls[0]))->Ok_0;
    let st0: ImportState = (dir, Seq::empty(), Seq::empty(), Seq::empty(), Seq::empty(), Seq::empty());
    lemma_run_keeps_edges_joined(ls.drop_first(), st0);
    let st = import_spec(src)->Next_0;
    assert(node_keys(st.1) =~= node_ids(fc.nodes@));
    assert forall|k: int| 0 <= k < fc.edges@.len() implies fc.has_node_spec((#[trigger] fc.edges@[k]).from@)
        && fc.has_node_spec(fc.edges@[k].to@) by {
        assert(st.2[k] == edge_m(fc.edges@[k]));
        lemma_first_index(node_ids(fc.nodes@), fc.edges@[k].from@);
        lemma_first_index(node_ids(fc.nodes@), fc.edges@[k].to@);
        let ka = choose|j: int| 0 <= j < node_keys(st.1).len() && node_keys(st.1)[j] == st.2[k].0;
        let kb = choose|j: int| 0 <= j < node_keys(st.1).len() && node_keys(st.1)[j] == st.2[k].1;
        assert(node_ids(fc.nodes@)[ka] == fc.edges@[k].from@);
        assert(node_ids(fc.nodes@)[kb] == fc.edges@[k].to@);
    }
}


/// No two neighbouring characters of `s` are both `-`.
pub open spec fn no_double_dash(s: Seq<char>) -> bool {
    forall|i: int, j: int|
        0 <= i && j == i + 1 && j < s.len() ==> !(#[trigger] s[i] == '-' && #[trigger] s[j] == '-')
}

/// Squeezing keeps only characters of its input and leaves no `--`.
proof fn lemma_squeeze_dashes(s: Seq<char>)
    ensures
        no_double_dash(squeeze_dashes(s)),
        forall|i: int| 0 <= i < squeeze_dashes(s).len() ==> s.contains(#[trigger] squeeze_dashes(s)[i]),
    decreases s.len(),
{
    if s.len() > 0 {
        let p = squeeze_dashes(s.drop_last());
        lemma_squeeze_dashes(s.drop_last());
        assert forall|i: int| 0 <= i < p.len() implies s.contains(#[trigger] p[i]) by {
            let k = choose|k: int| 0 <= k < s.drop_last().len() && s.drop_last()[k] == p[i];
            assert(s[k] == p[i]);
        }
        if !(s.last() == '-' && p.len() > 0 && p.last() == '-') {
            let q = p.push(s.last());
            assert forall|i: int| 0 <= i < q.len() implies s.contains(#[trigger] q[i]) by {
                if i < p.len() {
                    assert(q[i] == p[i]);
                } else {
                    assert(q[i] == s[s.len() - 1]);
                }
            }
            assert forall|i: int, j: int| 0 <= i && j == i + 1 && j < q.len() implies !(#[trigger] q[i] == '-'
                && #[trigger] q[j] == '-') by {
                if j < p.len() {
                    assert(q[i] == p[i] && q[j] == p[j]);
                }
            }
        }
    }
}

/// Squeezing changes nothing that has no `--`.
proof fn lemma_squeeze_dashes_id(s: Seq<char>)
    requires
        no_double_dash(s),
    ensures
        squeeze_dashes(s) == s,
    decreases s.len(),
{
    if s.len() > 0 {
        let d = s.drop_last();
        assert forall|i: int, j: int| 0 <= i && j == i + 1 && j < d.len() implies !(#[trigger] d[i] == '-'
            && #[trigger] d[j] == '-') by {
            assert(d[i] == s[i] && d[j] == s[j]);
        }
        lemma_squeeze_dashes_id(d);
        if s.len() > 1 {
            assert(s[s.len() - 2] == d.last());
            assert(!(s[s.len() - 2] == '-' && s[s.len() - 1] == '-'));
        }
        assert(d.push(s.last()) =~= s);
    }
}

proof fn lemma_lead_dash_count(s: Seq<char>)
    ensures
        lead_dashes(s) <= s.len(),
        lead_dashes(s) < s.len() ==> s[lead_dashes(s) as int] != '-',
        s.len() > 0 && s[0] != '-' ==> lead_dashes(s) == 0,
    decreases s.len(),
{
    if s.len() > 0 && s[0] == '-' {
        lemma_lead_dash_count(s.drop_first());
        if lead_dashes(s) < s.len() {
            assert(s[lead_dashes(s) as int] == s.drop_first()[lead_dashes(s.drop_first()) as int]);
        }
    }
}

proof fn lemma_trail_dash_count(s: Seq<char>)
    ensures
        trail_dashes(s) <= s.len(),
        trail_dashes(s) < s.len() ==> s[s.len() - trail_dashes(s) - 1] != '-',
        s.len() > 0 && s.last() != '-' ==> trail_dashes(s) == 0,
    decreases s.len(),
{
    if s.len() > 0 && s.last() == '-' {
        lemma_trail_dash_count(s.drop_last());
        if trail_dashes(s) < s.len() {
            assert(s[s.len() - trail_dashes(s) - 1] == s.drop_last()[s.drop_last().len() - trail_dashes(
                s.drop_last(),
            ) - 1]);
        }
    }
}

/// A sanitized file name holds no reserved character and no whitespace,
/// no `--`, and does not start or end with `-`; sanitizing it again
/// changes nothing.
pub proof fn law_sanitize_filename_idempotent(name: Seq<char>)
    ensures
        ({
            let r = sanitize_spec(name);
            &&& forall|i: int| 0 <= i < r.len() ==> file_char(#[trigger] r[i]) == r[i]
            &&& no_double_dash(r)
            &&& r.len() > 0 ==> r[0] != '-' && r.last() != '-'
            &&& sanitize_spec(r) == r
        }),
{
    assert(!char_is_whitespace('-'));
    let m = name.map_values(|c: char| file_char(c));
    assert forall|i: int| 0 <= i < m.len() implies file_char(#[trigger] m[i]) == m[i] by {
        assert(m[i] == file_char(name[i]));
    }
    let q = squeeze_dashes(m);
    lemma_squeeze_dashes(m);
    assert forall|i: int| 0 <= i < q.len() implies file_char(#[trigger] q[i]) == q[i] by {
        let k = choose|k: int| 0 <= k < m.len() && m[k] == q[i];
        assert(file_char(m[k]) == m[k]);
    }
    let a = lead_dashes(q);
    lemma_lead_dash_count(q);
    let t = q.skip(a as int);
    let b = trail_dashes(t);
    lemma_trail_dash_count(t);
    let r = t.take(t.len() - b);
    assert(r == sanitize_spec(name));
    assert forall|i: int| 0 <= i < r.len() implies file_char(#[trigger] r[i]) == r[i] by {
        assert(r[i] == q[i + a]);
    }
    assert forall|i: int, j: int| 0 <= i && j == i + 1 && j < r.len() implies !(#[trigger] r[i] == '-'
        && #[trigger] r[j] == '-') by {
        assert(r[i] == q[i + a] && r[j] == q[j + a]);
    }
    if r.len() > 0 {
        assert(r[0] == t[0]);
        assert(r.last() == t[t.len() - b - 1]);
    }
    let m2 = r.map_values(|c: char| file_char(c));
    assert(m2 =~= r);
    lemma_squeeze_dashes_id(r);
    lemma_lead_dash_count(r);
    lemma_trail_dash_count(r);
    assert(r.skip(0) =~= r);
    assert(r.take(r.len() as int) =~= r);
}


/// Reading XML entities back: `&amp;`, `&lt;`, `&gt;`, `&quot;` and
/// `&#39;` each give their character; any other character reads as itself.
pub open spec fn xml_unescape(t: Seq<char>) -> Seq<char>
    decreases t.len(),
{
    if t.len() == 0 {
        Seq::empty()
    } else if t.len() >= 5 && t.take(5) == "&amp;"@ {
        seq!['&'] + xml_unescape(t.skip(5))
    } else if t.len() >= 4 && t.take(4) == "&lt;"@ {
        seq!['<'] + xml_unescape(t.skip(4))
    } else if t.len() >= 4 && t.take(4) == "&gt;"@ {
        seq!['>'] + xml_unescape(t.skip(4))
    } else if t.len() >= 6 && t.take(6) == "&quot;"@ {
        seq!['"'] + xml_unescape(t.skip(6))
    } else if t.len() >= 5 && t.take(5) == "&#39;"@ {
        seq!['\''] + xml_unescape(t.skip(5))
    } else {
        seq![t[0]] + xml_unescape(t.skip(1))
    }
}

/// No `<`, `>`, `"` or `'` stands in `t`.
pub open spec fn xml_safe(t: Seq<char>) -> bool {
    forall|i: int| 0 <= i < t.len() ==> #[trigger] t[i] != '<' && t[i] != '>' && t[i] != '"' && t[i] != '\''
}

/// XML-escaped text holds no `<`, `>`, `"` or `'`, and reading its entities
/// back gives the text again (the ampersand is escaped first, so nothing is
/// escaped twice).
pub proof fn law_xml_escape_round_trip(s: Seq<char>)
    ensures
        xml_unescape(xml_escape_spec(s)) == s,
        xml_safe(xml_escape_spec(s)),
    decreases s.len(),
{
    reveal_strlit("&amp;");
    reveal_strlit("&lt;");
    reveal_strlit("&gt;");
    reveal_strlit("&quot;");
    reveal_strlit("&#39;");
    if s.len() == 0 {
        assert(xml_escape_spec(s) =~= Seq::<char>::empty());
    } else {
        let c = s[0];
        let rest = s.skip(1);
        assert(s =~= seq![c] + rest);
        lemma_flat_map_chars_add(seq![c], rest, |c: char| xml_escape_char(c));
        assert(seq![c].drop_last() =~= Seq::<char>::empty());
        assert(seq![c].last() == c);
        assert(flat_map_chars(Seq::<char>::empty(), |c: char| xml_escape_char(c)) == Seq::<char>::empty());
        assert(flat_map_chars(seq![c], |c: char| xml_escape_char(c)) == flat_map_chars(
            seq![c].drop_last(),
            |c: char| xml_escape_char(c),
        ) + xml_escape_char(c));
        assert(flat_map_chars(seq![c], |c: char| xml_escape_char(c)) =~= xml_escape_char(c));
        law_xml_escape_round_trip(rest);
        let e = xml_escape_char(c);
        let r = xml_escape_spec(rest);
        let t = e + r;
        assert(xml_escape_spec(s) == t);
        assert(t.skip(e.len() as int) =~= r);
        if c == '&' {
            assert(t.take(5) =~= "&amp;"@);
        } else if c == '<' {
            assert(t.len() >= 5 ==> t.take(5)[1] != "&amp;"@[1]);
            assert(t.take(4) =~= "&lt;"@);
        } else if c == '>' {
            assert(t.len() >= 5 ==> t.take(5)[1] != "&amp;"@[1]);
            assert(t.len() >= 4 ==> t.take(4)[1] != "&lt;"@[1]);
            assert(t.take(4) =~= "&gt;"@);
        } else if c == '"' {
            assert(t.len() >= 5 ==> t.take(5)[1] != "&amp;"@[1]);
            assert(t.len() >= 4 ==> t.take(4)[1] != "&lt;"@[1]);
            assert(t.len() >= 4 ==> t.take(4)[1] != "&gt;"@[1]);
            assert(t.take(6) =~= "&quot;"@);
        } else if c == '\'' {
            assert(t.len() >= 5 ==> t.take(5)[1] != "&amp;"@[1]);
            assert(t.len() >= 4 ==> t.take(4)[1] != "&lt;"@[1]);
            assert(t.len() >= 4 ==> t.take(4)[1] != "&gt;"@[1]);
            assert(t.len() >= 6 ==> t.take(6)[1] != "&quot;"@[1]);
            assert(t.take(5) =~= "&#39;"@);
        } else {
            assert(t[0] == c);
            assert(t.len() >= 5 ==> t.take(5)[0] != "&amp;"@[0]);
            assert(t.len() >= 4 ==> t.take(4)[0] != "&lt;"@[0]);
            assert(t.len() >= 4 ==> t.take(4)[0] != "&gt;"@[0]);
            assert(t.len() >= 6 ==> t.take(6)[0] != "&quot;"@[0]);
            assert(t.len() >= 5 ==> t.take(5)[0] != "&#39;"@[0]);
        }
        assert(xml_unescape(t) =~= s);
        assert forall|i: int| 0 <= i < t.len() implies #[trigger] t[i] != '<' && t[i] != '>' && t[i] != '"'
            && t[i] != '\'' by {
            if i >= e.len() {
                assert(t[i] == r[i - e.len()]);
            }
        }
    }
}


/// A name shouted: ASCII letters upper-cased and `_` written as `-`.
pub open spec fn shouted(s: Seq<char>) -> Seq<char> {
    s.map_values(|c: char| if c == '_' { '-' } else { upper_char_spec(c) })
}

/// Every shape's name parses back to that shape, also written in upper
/// case with `-` for `_` (parsing ignores case and reads `-` as `_`).
pub proof fn law_shape_names_parse(sh: Shape)
    ensures
        Shape::parse_spec(key_spec(sh.label_spec())) == Some(sh),
        Shape::parse_spec(key_spec(shouted(sh.label_spec()))) == Some(sh),
{
    reveal_strlit("rect");
    reveal_strlit("rectangle");
    reveal_strlit("box");
    reveal_strlit("process");
    reveal_strlit("round");
    reveal_strlit("round_rect");
    reveal_strlit("rounded");
    reveal_strlit("stadium");
    reveal_strlit("pill");
    reveal_strlit("terminal");
    reveal_strlit("start_end");
    reveal_strlit("subroutine");
    reveal_strlit("predefined");
    reveal_strlit("cylinder");
    reveal_strlit("database");
    reveal_strlit("db");
    reveal_strlit("circle");
    reveal_strlit("double_circle");
    reveal_strlit("doublecircle");
    reveal_strlit("diamond");
    reveal_strlit("rhombus");
    reveal_strlit("decision");
    reveal_strlit("hexagon");
    reveal_strlit("hex");
    reveal_strlit("prepare");
    reveal_strlit("parallelogram");
    reveal_strlit("data");
    reveal_strlit("io");
    reveal_strlit("parallelogram_alt");
    reveal_strlit("data_alt");
    reveal_strlit("trapezoid");
    reveal_strlit("trapezoid_alt");
    reveal_strlit("note");
    reveal_strlit("comment");
    reveal_strlit("card");
    reveal_strlit("document");
    reveal_strlit("doc");
    reveal_strlit("uml_class");
    reveal_strlit("class");
    reveal_strlit("umlclass");
    assert("rect"@[0] == 'r');
    assert("rect"@[1] == 'e');
    assert("rect"@[2] == 'c');
    assert("rectangle"@[0] == 'r');
    assert("rectangle"@[1] == 'e');
    assert("rectangle"@[2] == 'c');
    assert("box"@[0] == 'b');
    assert("box"@[1] == 'o');
    assert("box"@[2] == 'x');
    assert("process"@[0] == 'p');
    assert("process"@[1] == 'r');
    assert("process"@[2] == 'o');
    assert("round"@[0] == 'r');
    assert("round"@[1] == 'o');
    assert("round"@[2] == 'u');
    assert("round_rect"@[0] == 'r');
    assert("round_rect"@[1] == 'o');
    assert("round_rect"@[2] == 'u');
    assert("rounded"@[0] == 'r');
    assert("rounded"@[1] == 'o');
    assert("rounded"@[2] == 'u');
    assert("stadium"@[0] == 's');
    assert("stadium"@[1] == 't');
    assert("stadium"@[2] == 'a');
    assert("pill"@[0] == 'p');
    assert("pill"@[1] == 'i');
    assert("pill"@[2] == 'l');
    assert("terminal"@[0] == 't');
    assert("terminal"@[1] == 'e');
    assert("terminal"@[2] == 'r');
    assert("start_end"@[0] == 's');
    assert("start_end"@[1] == 't');
    assert("start_end"@[2] == 'a');
    assert("subroutine"@[0] == 's');
    assert("subroutine"@[1] == 'u');
    assert("subroutine"@[2] == 'b');
    assert("predefined"@[0] == 'p');
    assert("predefined"@[1] == 'r');
    assert("predefined"@[2] == 'e');
    assert("cylinder"@[0] == 'c');
    assert("cylinder"@[1] == 'y');
    assert("cylinder"@[2] == 'l');
    assert("database"@[0] == 'd');
    assert("database"@[1] == 'a');
    assert("database"@[2] == 't');
    assert("db"@[0] == 'd');
    assert("db"@[1] == 'b');
    assert("circle"@[0] == 'c');
    assert("circle"@[1] == 'i');
    assert("circle"@[2] == 'r');
    assert("double_circle"@[0] == 'd');
    assert("double_circle"@[1] == 'o');
    assert("double_circle"@[2] == 'u');
    assert("doublecircle"@[0] == 'd');
    assert("doublecircle"@[1] == 'o');
    assert("doublecircle"@[2] == 'u');
    assert("diamond"@[0] == 'd');
    assert("diamond"@[1] == 'i');
    assert("diamond"@[2] == 'a');
    assert("rhombus"@[0] == 'r');
    assert("rhombus"@[1] == 'h');
    assert("rhombus"@[2] == 'o');
    assert("decision"@[0] == 'd');
    assert("decision"@[1] == 'e');
    assert("decision"@[2] == 'c');
    assert("hexagon"@[0] == 'h');
    assert("hexagon"@[1] == 'e');
    assert("hexagon"@[2] == 'x');
    assert("hex"@[0] == 'h');
    assert("hex"@[1] == 'e');
    assert("hex"@[2] == 'x');
    assert("prepare"@[0] == 'p');
    assert("prepare"@[1] == 'r');
    assert("prepare"@[2] == 'e');
    assert("parallelogram"@[0] == 'p');
    assert("parallelogram"@[1] == 'a');
    assert("parallelogram"@[2] == 'r');
    assert("data"@[0] == 'd');
    assert("data"@[1] == 'a');
    assert("data"@[2] == 't');
    assert("io"@[0] == 'i');
    assert("io"@[1] == 'o');
    assert("parallelogram_alt"@[0] == 'p');
    assert("parallelogram_alt"@[1] == 'a');
    assert("parallelogram_alt"@[2] == 'r');
    assert("data_alt"@[0] == 'd');
    assert("data_alt"@[1] == 'a');
    assert("data_alt"@[2] == 't');
    assert("trapezoid"@[0] == 't');
    assert("trapezoid"@[1] == 'r');
    assert("trapezoid"@[2] == 'a');
    assert("trapezoid_alt"@[0] == 't');
    assert("trapezoid_alt"@[1] == 'r');
    assert("trapezoid_alt"@[2] == 'a');
    assert("note"@[0] == 'n');
    assert("note"@[1] == 'o');
    assert("note"@[2] == 't');
    assert("comment"@[0] == 'c');
    assert("comment"@[1] == 'o');
    assert("comment"@[2] == 'm');
    assert("card"@[0] == 'c');
    assert("card"@[1] == 'a');
    assert("card"@[2] == 'r');
    assert("document"@[0] == 'd');
    assert("document"@[1] == 'o');
    assert("document"@[2] == 'c');
    assert("doc"@[0] == 'd');
    assert("doc"@[1] == 'o');
    assert("doc"@[2] == 'c');
    assert("uml_class"@[0] == 'u');
    assert("uml_class"@[1] == 'm');
    assert("uml_class"@[2] == 'l');
    assert("class"@[0] == 'c');
    assert("class"@[1] == 'l');
    assert("class"@[2] == 'a');
    assert("umlclass"@[0] == 'u');
    assert("umlclass"@[1] == 'm');
    assert("umlclass"@[2] == 'l');
    let l = sh.label_spec();
    lemma_plain_name(l);
    assert forall|i: int| 0 <= i < l.len() implies #[trigger] key_spec(shouted(l))[i] == l[i] by {
        let c = l[i];
        assert('a' <= c <= 'z' || c == '_');
        if c != '_' {
            assert(upper_char_spec(c) == ((c as u32) - 32) as char);
            assert(lower_char_spec(upper_char_spec(c)) == c);
        }
    }
    assert(key_spec(shouted(l)) =~= l);
}


/// `b` does not start with `p` when they differ at position `i`.
proof fn lemma_no_start(b: Seq<char>, p: Seq<char>, i: int)
    requires
        0 <= i < p.len(),
        i < b.len(),
        b[i] != p[i],
    ensures
        !starts(b, p),
{
    if starts(b, p) {
        assert(b.subrange(0, p.len() as int)[i] == b[i]);
    }
}

/// `b` does not end with `p` when they differ at position `i` of `p`.
proof fn lemma_no_end(b: Seq<char>, p: Seq<char>, i: int)
    requires
        0 <= i < p.len(),
        p.len() <= b.len(),
        b[b.len() - p.len() + i] != p[i],
    ensures
        !ends(b, p),
{
    if ends(b, p) {
        assert(b.skip(b.len() - p.len())[i] == b[b.len() - p.len() + i]);
    }
}

/// An ASCII letter or digit.
pub open spec fn ascii_alnum(c: char) -> bool {
    ('a' <= c <= 'z') || ('A' <= c <= 'Z') || ('0' <= c <= '9')
}

/// The shape a node reads back as from its Mermaid form: itself, or a
/// rectangle for the shapes Mermaid writes as one.
pub open spec fn mermaid_read_shape(sh: Shape) -> Shape {
    if sh is Note || sh is Card || sh is Document || sh is UmlClass {
        Shape::Rectangle
    } else {
        sh
    }
}

/// The importer reads a node body as the Mermaid exporter wraps it back to
/// its label and shape (a rectangle for the shapes without a Mermaid form of
/// their own), for every label that starts and ends with an ASCII letter or
/// digit.
pub proof fn law_shape_body_inverts_wrap(sh: Shape, l: Seq<char>)
    requires
        l.len() > 0,
        ascii_alnum(l[0]),
        ascii_alnum(l.last()),
    ensures
        shape_body_from(sh.mermaid_wrap_spec(l), 0) == Some((mermaid_read_shape(sh), l)),
{
    reveal_strlit("(((");
    reveal_strlit(")))");
    reveal_strlit("((");
    reveal_strlit("))");
    reveal_strlit("([");
    reveal_strlit("])");
    reveal_strlit("[[");
    reveal_strlit("]]");
    reveal_strlit("[(");
    reveal_strlit(")]");
    reveal_strlit("{{");
    reveal_strlit("}}");
    reveal_strlit("[/");
    reveal_strlit("/]");
    reveal_strlit("[\\");
    reveal_strlit("\\]");
    reveal_strlit("(");
    reveal_strlit(")");
    reveal_strlit("{");
    reveal_strlit("}");
    reveal_strlit("[");
    reveal_strlit("]");
    reveal_with_fuel(shape_body_from, 14);
    assert(!char_is_whitespace(l[0]));
    assert(!char_is_whitespace(l.last()));
    assert(lead_ws(l) == 0);
    assert(l.skip(0) =~= l);
    assert(trail_ws(l) == 0);
    assert(l.take(l.len() as int) =~= l);
    assert(trim_spec(l) == l);
    assert(unquote_spec(l) == l);
    let o = sh.mermaid_delims().0;
    let c = sh.mermaid_delims().1;
    let b = sh.mermaid_wrap_spec(l);
    assert(b.len() == o.len() + l.len() + c.len());
    assert(forall|i: int| 0 <= i < o.len() ==> b[i] == o[i]);
    assert(b[o.len() as int] == l[0]);
    assert(b[b.len() - c.len() - 1] == l.last());
    assert(forall|i: int| 0 <= i < c.len() ==> b[b.len() - c.len() + i] == c[i]);
    assert(b.subrange(o.len() as int, b.len() - c.len()) =~= l);
    match sh {
        Shape::DoubleCircle => {
            assert(b.subrange(0, 3) =~= "((("@);
            assert(b.skip(b.len() - 3) =~= ")))"@);
        },
        Shape::Circle => {
            lemma_no_start(b, "((("@, 2);
            assert(b.subrange(0, 2) =~= "(("@);
            assert(b.skip(b.len() - 2) =~= "))"@);
        },
        Shape::Stadium => {
            lemma_no_start(b, "((("@, 1);
            lemma_no_start(b, "(("@, 1);
            assert(b.subrange(0, 2) =~= "(["@);
            assert(b.skip(b.len() - 2) =~= "])"@);
        },
        Shape::Subroutine => {
            lemma_no_start(b, "((("@, 0);
            lemma_no_start(b, "(("@, 0);
            lemma_no_start(b, "(["@, 0);
            assert(b.subrange(0, 2) =~= "[["@);
            assert(b.skip(b.len() - 2) =~= "]]"@);
        },
        Shape::Cylinder => {
            lemma_no_start(b, "((("@, 0);
            lemma_no_start(b, "(("@, 0);
            lemma_no_start(b, "(["@, 0);
            lemma_no_start(b, "[["@, 1);
            assert(b.subrange(0, 2) =~= "[("@);
            assert(b.skip(b.len() - 2) =~= ")]"@);
        },
        Shape::Hexagon => {
            lemma_no_start(b, "((("@, 0);
            lemma_no_start(b, "(("@, 0);
            lemma_no_start(b, "(["@, 0);
            lemma_no_start(b, "[["@, 0);
            lemma_no_start(b, "[("@, 0);
            assert(b.subrange(0, 2) =~= "{{"@);
            assert(b.skip(b.len() - 2) =~= "}}"@);
        },
        Shape::Parallelogram => {
            lemma_no_start(b, "((("@, 0);
            lemma_no_start(b, "(("@, 0);
            lemma_no_start(b, "(["@, 0);
            lemma_no_start(b, "[["@, 1);
            lemma_no_start(b, "[("@, 1);
            lemma_no_start(b, "{{"@, 0);
            assert(b.subrange(0, 2) =~= "[/"@);
            assert(b.skip(b.len() - 2) =~= "/]"@);
        },
        Shape::ParallelogramAlt => {
            lemma_no_start(b, "((("@, 0);
            lemma_no_start(b, "(("@, 0);
            lemma_no_start(b, "(["@, 0);
            lemma_no_start(b, "[["@, 1);
            lemma_no_start(b, "[("@, 1);
            lemma_no_start(b, "{{"@, 0);
            lemma_no_start(b, "[/"@, 1);
            assert(b.subrange(0, 2) =~= "[\\"@);
            assert(b.skip(b.len() - 2) =~= "\\]"@);
        },
        Shape::Trapezoid => {
            lemma_no_start(b, "((("@, 0);
            lemma_no_start(b, "(("@, 0);
            lemma_no_start(b, "(["@, 0);
            lemma_no_start(b, "[["@, 1);
            lemma_no_start(b, "[("@, 1);
            lemma_no_start(b, "{{"@, 0);
            lemma_no_end(b, "/]"@, 0);
            lemma_no_start(b, "[\\"@, 1);
            assert(b.subrange(0, 2) =~= "[/"@);
            assert(b.skip(b.len() - 2) =~= "\\]"@);
        },
        Shape::TrapezoidAlt => {
            lemma_no_start(b, "((("@, 0);
            lemma_no_start(b, "(("@, 0);
            lemma_no_start(b, "(["@, 0);
            lemma_no_start(b, "[["@, 1);
            lemma_no_start(b, "[("@, 1);
            lemma_no_start(b, "{{"@, 0);
            lemma_no_start(b, "[/"@, 1);
            lemma_no_end(b, "\\]"@, 0);
            lemma_no_start(b, "[/"@, 1);
            assert(b.subrange(0, 2) =~= "[\\"@);
            assert(b.skip(b.len() - 2) =~= "/]"@);
        },
        Shape::RoundRect => {
            lemma_no_start(b, "((("@, 1);
            lemma_no_start(b, "(("@, 1);
            lemma_no_start(b, "(["@, 1);
            lemma_no_start(b, "[["@, 0);
            lemma_no_start(b, "[("@, 0);
            lemma_no_start(b, "{{"@, 0);
            lemma_no_start(b, "[/"@, 0);
            lemma_no_start(b, "[\\"@, 0);
            lemma_no_start(b, "[/"@, 0);
            lemma_no_start(b, "[\\"@, 0);
            assert(b.subrange(0, 1) =~= "("@);
            assert(b.skip(b.len() - 1) =~= ")"@);
        },
        Shape::Diamond => {
            lemma_no_start(b, "((("@, 0);
            lemma_no_start(b, "(("@, 0);
            lemma_no_start(b, "(["@, 0);
            lemma_no_start(b, "[["@, 0);
            lemma_no_start(b, "[("@, 0);
            lemma_no_start(b, "{{"@, 1);
            lemma_no_start(b, "[/"@, 0);
            lemma_no_start(b, "[\\"@, 0);
            lemma_no_start(b, "[/"@, 0);
            lemma_no_start(b, "[\\"@, 0);
            lemma_no_start(b, "("@, 0);
            assert(b.subrange(0, 1) =~= "{"@);
            assert(b.skip(b.len() - 1) =~= "}"@);
        },
        Shape::Rectangle | Shape::Note | Shape::Card | Shape::Document | Shape::UmlClass => {
            lemma_no_start(b, "((("@, 0);
            lemma_no_start(b, "(("@, 0);
            lemma_no_start(b, "(["@, 0);
            lemma_no_start(b, "[["@, 1);
            lemma_no_start(b, "[("@, 1);
            lemma_no_start(b, "{{"@, 0);
            lemma_no_start(b, "[/"@, 1);
            lemma_no_start(b, "[\\"@, 1);
            lemma_no_start(b, "[/"@, 1);
            lemma_no_start(b, "[\\"@, 1);
            lemma_no_start(b, "("@, 0);
            lemma_no_start(b, "{"@, 0);
            assert(b.subrange(0, 1) =~= "["@);
            assert(b.skip(b.len() - 1) =~= "]"@);
        },
    }
}


/// No id has two numbers.
pub open spec fn ids_distinct(nums: Seq<Numbered>) -> bool {
    forall|a: int, b: int| 0 <= a < nums.len() && 0 <= b < nums.len() && a != b ==> #[trigger] nums[a].0 != #[trigger] nums[b].0
}

/// No id stands twice.
pub open spec fn seq_distinct(q: Seq<Seq<char>>) -> bool {
    forall|a: int, b: int| 0 <= a < q.len() && 0 <= b < q.len() && a != b ==> #[trigger] q[a] != #[trigger] q[b]
}

proof fn lemma_dedup_distinct(s: Seq<Seq<char>>)
    ensures
        seq_distinct(dedup(s)),
    decreases s.len(),
{
    if s.len() > 0 {
        lemma_dedup_distinct(s.drop_last());
        let d = dedup(s.drop_last());
        if !d.contains(s.last()) {
            let r = d.push(s.last());
            assert forall|a: int, b: int| 0 <= a < r.len() && 0 <= b < r.len() && a != b implies #[trigger] r[a]
                != #[trigger] r[b] by {
                if a < d.len() && b < d.len() {
                    assert(r[a] == d[a] && r[b] == d[b]);
                } else if a < d.len() {
                    assert(r[a] == d[a]);
                } else {
                    assert(r[b] == d[b]);
                }
            }
        }
    }
}

/// Enqueueing the successors keeps the queue in front, marks every added id
/// seen, and adds only ids not seen before, each once.
proof fn lemma_enqueue_adds(edges: Seq<Edge>, u: Seq<char>, seen: Seq<Seq<char>>, queue: Seq<Seq<char>>)
    ensures
        ({
            let st = enqueue_succ(edges, u, seen, queue);
            &&& st.1.len() >= queue.len()
            &&& st.1.take(queue.len() as int) == queue
            &&& forall|x: Seq<char>| seen.contains(x) ==> #[trigger] st.0.contains(x)
            &&& forall|k: int|
                queue.len() <= k < st.1.len() ==> !seen.contains(#[trigger] st.1[k]) && st.0.contains(st.1[k])
            &&& forall|k: int, k2: int|
                queue.len() <= k2 < k < st.1.len() ==> #[trigger] st.1[k2] != #[trigger] st.1[k]
        }),
    decreases edges.len(),
{
    if edges.len() == 0 {
        assert(queue.take(queue.len() as int) =~= queue);
    } else {
        lemma_enqueue_adds(edges.drop_last(), u, seen, queue);
        let st = enqueue_succ(edges.drop_last(), u, seen, queue);
        let e = edges.last();
        if e.from@ == u && !st.0.contains(e.to@) {
            let s0 = st.0.push(e.to@);
            let s1 = st.1.push(e.to@);
            assert(s1.take(queue.len() as int) =~= st.1.take(queue.len() as int));
            assert forall|x: Seq<char>| seen.contains(x) implies #[trigger] s0.contains(x) by {
                assert(st.0.contains(x));
                let i = choose|i: int| 0 <= i < st.0.len() && st.0[i] == x;
                assert(s0[i] == x);
            }
            assert forall|k: int| queue.len() <= k < s1.len() implies !seen.contains(#[trigger] s1[k]) && s0.contains(
                s1[k],
            ) by {
                if k < st.1.len() {
                    assert(s1[k] == st.1[k]);
                    let i = choose|i: int| 0 <= i < st.0.len() && st.0[i] == st.1[k];
                    assert(s0[i] == st.1[k]);
                } else {
                    assert(s1[k] == e.to@);
                    assert(s0[st.0.len() as int] == e.to@);
                    if seen.contains(e.to@) {
                        assert(st.0.contains(e.to@));
                    }
                }
            }
            assert forall|k: int, k2: int| queue.len() <= k2 < k < s1.len() implies #[trigger] s1[k2]
                != #[trigger] s1[k] by {
                assert(s1[k2] == st.1[k2]);
                if k < st.1.len() {
                    assert(s1[k] == st.1[k]);
                } else {
                    assert(st.0.contains(st.1[k2]));
                }
            }
        }
    }
}

/// What the walk keeps: the queue holds distinct seen ids, every numbered
/// id is seen and out of the queue, and no id has two numbers.
pub open spec fn walk_inv(seen: Seq<Seq<char>>, queue: Seq<Seq<char>>, numbers: Seq<Numbered>) -> bool {
    &&& seq_distinct(queue)
    &&& forall|j: int| 0 <= j < queue.len() ==> seen.contains(#[trigger] queue[j])
    &&& forall|i: int| 0 <= i < numbers.len() ==> seen.contains(#[trigger] numbers[i].0)
    &&& forall|i: int, j: int| 0 <= i < numbers.len() && 0 <= j < queue.len() ==> #[trigger] numbers[i].0 != #[trigger] queue[j]
    &&& ids_distinct(numbers)
}

proof fn lemma_walk_distinct(fc: Flowchart, seen: Seq<Seq<char>>, queue: Seq<Seq<char>>, numbers: Seq<Numbered>)
    requires
        walk_inv(seen, queue, numbers),
    ensures
        ids_distinct(walk_numbers(fc, seen, queue, numbers)),
    decreases unseen(targets(fc.edges@), seen), queue.len(),
{
    if queue.len() > 0 {
        let u = queue[0];
        let nums = if is_step_id(fc.nodes@, u) {
            numbers.push((u, numbers.len() + 1int))
        } else {
            numbers
        };
        let qd = queue.drop_first();
        let st = enqueue_succ(fc.edges@, u, seen, qd);
        assert forall|k: int| 0 <= k < fc.edges@.len() implies targets(fc.edges@).contains(
            #[trigger] fc.edges@[k].to@,
        ) by {
            assert(targets(fc.edges@)[k] == fc.edges@[k].to@);
        }
        lemma_enqueue_measure(fc.edges@, fc.edges@, u, seen, qd);
        lemma_enqueue_adds(fc.edges@, u, seen, qd);
        assert(seen.contains(queue[0]));
        assert forall|j: int| 0 <= j < qd.len() implies seen.contains(#[trigger] qd[j]) by {
            assert(qd[j] == queue[j + 1]);
        }
        assert forall|k: int| 0 <= k < qd.len() implies st.1[k] == qd[k] by {
            assert(st.1.take(qd.len() as int)[k] == st.1[k]);
        }
        assert forall|a: int, b: int| 0 <= a < st.1.len() && 0 <= b < st.1.len() && a != b implies #[trigger] st.1[a]
            != #[trigger] st.1[b] by {
            if a < qd.len() && b < qd.len() {
                assert(st.1[a] == qd[a] && st.1[b] == qd[b]);
                assert(qd[a] == queue[a + 1] && qd[b] == queue[b + 1]);
            } else if a < qd.len() {
                assert(st.1[a] == qd[a]);
                assert(seen.contains(qd[a]));
            } else if b < qd.len() {
                assert(st.1[b] == qd[b]);
                assert(seen.contains(qd[b]));
            }
        }
        assert forall|j: int| 0 <= j < st.1.len() implies st.0.contains(#[trigger] st.1[j]) by {
            if j < qd.len() {
                assert(st.1[j] == qd[j]);
                assert(seen.contains(qd[j]));
            }
        }
        assert forall|i: int| 0 <= i < nums.len() implies st.0.contains(#[trigger] nums[i].0) by {
            if i < numbers.len() {
                assert(nums[i] == numbers[i]);
                assert(seen.contains(numbers[i].0));
            } else {
                assert(nums[i].0 == u);
            }
        }
        assert forall|i: int, j: int| 0 <= i < nums.len() && 0 <= j < st.1.len() implies #[trigger] nums[i].0
            != #[trigger] st.1[j] by {
            let x = nums[i].0;
            if i < numbers.len() {
                assert(nums[i] == numbers[i]);
                if j < qd.len() {
                    assert(st.1[j] == qd[j]);
                    assert(qd[j] == queue[j + 1]);
                } else {
                    assert(seen.contains(numbers[i].0));
                }
            } else {
                assert(x == u);
                if j < qd.len() {
                    assert(st.1[j] == qd[j]);
                    assert(qd[j] == queue[j + 1]);
                } else {
                    assert(seen.contains(u));
                }
            }
        }
        assert forall|a: int, b: int| 0 <= a < nums.len() && 0 <= b < nums.len() && a != b implies #[trigger] nums[a].0
            != #[trigger] nums[b].0 by {
            if a < numbers.len() && b < numbers.len() {
                assert(nums[a] == numbers[a] && nums[b] == numbers[b]);
            } else if a < numbers.len() {
                assert(nums[a] == numbers[a]);
                assert(numbers[a].0 != queue[0]);
            } else {
                assert(nums[b] == numbers[b]);
                assert(numbers[b].0 != queue[0]);
            }
        }
        lemma_walk_distinct(fc, st.0, st.1, nums);
    }
}

proof fn lemma_number_rest_covers(nodes: Seq<Node>, numbers: Seq<Numbered>)
    requires
        ids_distinct(numbers),
    ensures
        ids_distinct(number_rest(nodes, numbers)),
        forall|k: int|
            0 <= k < nodes.len() && (#[trigger] nodes[k]).shape != Shape::Stadium ==> numbered(
                number_rest(nodes, numbers),
                nodes[k].id@,
            ),
    decreases nodes.len(),
{
    if nodes.len() > 0 {
        let d = nodes.drop_last();
        lemma_number_rest_covers(d, numbers);
        let prev = number_rest(d, numbers);
        let n = nodes.last();
        let r = number_rest(nodes, numbers);
        if n.shape != Shape::Stadium && !numbered(prev, n.id@) {
            assert(r == prev.push((n.id@, prev.len() + 1int)));
            assert forall|a: int, b: int| 0 <= a < r.len() && 0 <= b < r.len() && a != b implies #[trigger] r[a].0
                != #[trigger] r[b].0 by {
                if a < prev.len() && b < prev.len() {
                    assert(r[a] == prev[a] && r[b] == prev[b]);
                } else if a < prev.len() {
                    assert(r[a] == prev[a]);
                } else {
                    assert(r[b] == prev[b]);
                }
            }
        }
        assert forall|k: int| 0 <= k < nodes.len() && (#[trigger] nodes[k]).shape != Shape::Stadium implies numbered(
            r,
            nodes[k].id@,
        ) by {
            if k < d.len() {
                assert(nodes[k] == d[k]);
                assert(numbered(prev, d[k].id@));
                let i = choose|i: int| 0 <= i < prev.len() && prev[i].0 == d[k].id@;
                assert(r[i] == prev[i]);
            } else {
                assert(nodes[k] == n);
                if numbered(prev, n.id@) {
                    let i = choose|i: int| 0 <= i < prev.len() && prev[i].0 == n.id@;
                    assert(r[i] == prev[i]);
                } else {
                    assert(r[prev.len() as int].0 == n.id@);
                }
            }
        }
    }
}

/// Every node that is not a start or end terminator gets a step number,
/// and no id gets two.
pub proof fn law_every_step_numbered_once(fc: Flowchart)
    ensures
        forall|k: int|
            0 <= k < fc.nodes@.len() && (#[trigger] fc.nodes@[k]).shape != Shape::Stadium ==> numbered(
                step_numbers(fc),
                fc.nodes@[k].id@,
            ),
        ids_distinct(step_numbers(fc)),
{
    let seeds = dedup(walk_seeds(fc));
    lemma_dedup_distinct(walk_seeds(fc));
    assert(forall|j: int| 0 <= j < seeds.len() ==> seeds.contains(#[trigger] seeds[j]));
    lemma_walk_distinct(fc, seeds, seeds, Seq::empty());
    lemma_number_rest_covers(fc.nodes@, walk_numbers(fc, seeds, seeds, Seq::empty()));
}


/// Replacing from position `a.len() + k` of `a + b` is replacing from `k`
/// of `b`.
proof fn lemma_replace_shift(a: Seq<char>, b: Seq<char>, p: Seq<char>, w: Seq<char>, k: int)
    requires
        p.len() > 0,
        0 <= k <= b.len(),
    ensures
        replace_from(a + b, p, w, a.len() + k) == replace_from(b, p, w, k),
    decreases b.len() - k,
{
    if k < b.len() {
        let ab = a + b;
        let i = a.len() + k;
        if k + p.len() <= b.len() {
            assert(ab.subrange(i, i + p.len()) =~= b.subrange(k, k + p.len()));
        }
        assert(ab[i] == b[k]);
        if occurs_at(b, p, k) {
            lemma_replace_shift(a, b, p, w, k + p.len());
        } else {
            lemma_replace_shift(a, b, p, w, k + 1);
        }
    }
}

/// When no occurrence of `p` runs from `a` into `b`, replacing in `a + b`
/// replaces in each.
proof fn lemma_replace_split(a: Seq<char>, b: Seq<char>, p: Seq<char>, w: Seq<char>, i: int)
    requires
        p.len() > 0,
        0 <= i <= a.len(),
        forall|j: int| i <= j < a.len() && occurs_at(a + b, p, j) ==> j + p.len() <= a.len(),
    ensures
        replace_from(a + b, p, w, i) == replace_from(a, p, w, i) + replace_from(b, p, w, 0),
    decreases a.len() - i,
{
    let ab = a + b;
    if i == a.len() {
        lemma_replace_shift(a, b, p, w, 0);
        assert(replace_from(a, p, w, i) =~= Seq::<char>::empty());
        assert(Seq::<char>::empty() + replace_from(b, p, w, 0) =~= replace_from(b, p, w, 0));
    } else {
        if i + p.len() <= a.len() {
            assert(ab.subrange(i, i + p.len()) =~= a.subrange(i, i + p.len()));
        }
        assert(ab[i] == a[i]);
        if occurs_at(ab, p, i) {
            assert(occurs_at(a, p, i));
            lemma_replace_split(a, b, p, w, i + p.len());
            assert(w + (replace_from(a, p, w, i + p.len()) + replace_from(b, p, w, 0)) =~= w
                + replace_from(a, p, w, i + p.len()) + replace_from(b, p, w, 0));
        } else {
            assert(!occurs_at(a, p, i));
            lemma_replace_split(a, b, p, w, i + 1);
            assert(seq![a[i]] + (replace_from(a, p, w, i + 1) + replace_from(b, p, w, 0)) =~= seq![a[i]]
                + replace_from(a, p, w, i + 1) + replace_from(b, p, w, 0));
        }
    }
}

/// Where `p` does not occur, replacing changes nothing.
proof fn lemma_replace_none(s: Seq<char>, p: Seq<char>, w: Seq<char>, i: int)
    requires
        p.len() > 0,
        0 <= i <= s.len(),
        forall|j: int| i <= j < s.len() ==> !occurs_at(s, p, j),
    ensures
        replace_from(s, p, w, i) == s.skip(i),
    decreases s.len() - i,
{
    if i < s.len() {
        lemma_replace_none(s, p, w, i + 1);
        assert(seq![s[i]] + s.skip(i + 1) =~= s.skip(i));
    } else {
        assert(s.skip(i) =~= Seq::<char>::empty());
    }
}


/// XML entities decoded by replacing, as one would with `str::replace`:
/// `&lt;`, `&gt;`, `&quot;`, `&#39;`, and last `&amp;`.
pub open spec fn xml_decode_replace(t: Seq<char>) -> Seq<char> {
    replace_spec(
        replace_spec(
            replace_spec(replace_spec(replace_spec(t, "&lt;"@, "<"@), "&gt;"@, ">"@), "&quot;"@, "\""@),
            "&#39;"@,
            "'"@,
        ),
        "&amp;"@,
        "&"@,
    )
}

/// The character the `k`-th replacement gives back.
pub open spec fn entity_char(k: int) -> char {
    if k == 1 {
        '<'
    } else if k == 2 {
        '>'
    } else if k == 3 {
        '"'
    } else if k == 4 {
        '\''
    } else {
        '&'
    }
}

/// The entity the `k`-th replacement reads.
pub open spec fn entity_pat(k: int) -> Seq<char> {
    xml_escape_char(entity_char(k))
}

/// A character once the first `k` replacements are done: given back when
/// one of them reads it, still escaped otherwise.
pub open spec fn stage_char(k: int, c: char) -> Seq<char> {
    if exists|m: int| 1 <= m <= k && #[trigger] entity_char(m) == c {
        seq![c]
    } else {
        xml_escape_char(c)
    }
}

/// Every `&` starts a whole entity: enough characters follow it for the
/// entity its next character names.
pub open spec fn amp_complete(t: Seq<char>) -> bool {
    forall|j: int|
        0 <= j < t.len() && #[trigger] t[j] == '&' ==> j + 3 < t.len() && ((t[j + 1] == 'a' || t[j + 1]
            == '#') ==> j + 4 < t.len()) && (t[j + 1] == 'q' ==> j + 5 < t.len())
}

proof fn lemma_amp_complete_add(a: Seq<char>, b: Seq<char>)
    requires
        amp_complete(a),
        amp_complete(b),
    ensures
        amp_complete(a + b),
{
    assert forall|j: int| 0 <= j < (a + b).len() && #[trigger] (a + b)[j] == '&' implies j + 3 < (a + b).len() && (((a
        + b)[j + 1] == 'a' || (a + b)[j + 1] == '#') ==> j + 4 < (a + b).len()) && ((a + b)[j + 1] == 'q' ==> j + 5
        < (a + b).len()) by {
        if j < a.len() {
            assert((a + b)[j] == a[j]);
            assert((a + b)[j + 1] == a[j + 1]);
        } else {
            assert((a + b)[j] == b[j - a.len()]);
            assert((a + b)[j + 1] == b[j - a.len() + 1]);
        }
    }
}

/// One character through the `k`-th replacement.
proof fn lemma_stage_block(k: int, c: char)
    requires
        1 <= k <= 5,
    ensures
        replace_spec(stage_char(k - 1, c), entity_pat(k), seq![entity_char(k)]) == stage_char(k, c),
        amp_complete(stage_char(k - 1, c)),
{
    reveal_strlit("&amp;");
    reveal_strlit("&lt;");
    reveal_strlit("&gt;");
    reveal_strlit("&quot;");
    reveal_strlit("&#39;");
    reveal_with_fuel(replace_from, 3);
    let b = stage_char(k - 1, c);
    let p = entity_pat(k);
    let w = seq![entity_char(k)];
    let dec_before = exists|m: int| 1 <= m <= k - 1 && #[trigger] entity_char(m) == c;
    let dec_now = exists|m: int| 1 <= m <= k && #[trigger] entity_char(m) == c;
    if dec_before {
        let m = choose|m: int| 1 <= m <= k - 1 && #[trigger] entity_char(m) == c;
        assert(entity_char(m) == c);
        assert(b == seq![c]);
        assert(c != '&');
        assert(stage_char(k, c) == seq![c]);
        assert forall|j: int| 0 <= j < b.len() implies !occurs_at(b, p, j) by {
            if occurs_at(b, p, j) {
                assert(b.subrange(j, j + p.len())[0] == b[j]);
            }
        }
        lemma_replace_none(b, p, w, 0);
        assert(b.skip(0) =~= b);
    } else if c == entity_char(k) {
        assert(entity_char(k) == c);
        assert(b == p);
        assert(stage_char(k, c) == seq![c]);
        assert(occurs_at(b, p, 0)) by {
            assert(b.subrange(0, p.len() as int) =~= p);
        }
        assert(replace_from(b, p, w, p.len() as int) =~= Seq::<char>::empty());
        assert(w + Seq::<char>::empty() =~= w);
    } else {
        assert(!dec_now) by {
            if dec_now {
                let m = choose|m: int| 1 <= m <= k && #[trigger] entity_char(m) == c;
                assert(m == k);
            }
        }
        assert(b == xml_escape_char(c));
        assert(stage_char(k, c) == b);
        assert forall|j: int| 0 <= j < b.len() implies !occurs_at(b, p, j) by {
            if occurs_at(b, p, j) {
                assert(b.subrange(j, j + p.len())[0] == b[j]);
                assert(b[j] == '&');
                assert(j == 0);
                assert(b.subrange(0, p.len() as int)[1] == b[1]);
            }
        }
        lemma_replace_none(b, p, w, 0);
        assert(b.skip(0) =~= b);
    }
}


/// The `k`-th replacement takes the text after `k - 1` replacements to the
/// text after `k`; before the last one, every `&` starts a whole entity.
proof fn lemma_stage(s: Seq<char>, k: int)
    requires
        1 <= k <= 5,
    ensures
        replace_spec(flat_map_chars(s, |c: char| stage_char(k - 1, c)), entity_pat(k), seq![entity_char(k)])
            == flat_map_chars(s, |c: char| stage_char(k, c)),
        amp_complete(flat_map_chars(s, |c: char| stage_char(k - 1, c))),
    decreases s.len(),
{
    reveal_strlit("&amp;");
    reveal_strlit("&lt;");
    reveal_strlit("&gt;");
    reveal_strlit("&quot;");
    reveal_strlit("&#39;");
    let p = entity_pat(k);
    let w = seq![entity_char(k)];
    if s.len() == 0 {
        assert(flat_map_chars(s, |c: char| stage_char(k - 1, c)) =~= Seq::<char>::empty());
        assert(flat_map_chars(s, |c: char| stage_char(k, c)) =~= Seq::<char>::empty());
    } else {
        let d = s.drop_last();
        let c = s.last();
        lemma_stage(d, k);
        lemma_stage_block(k, c);
        let a = flat_map_chars(d, |c: char| stage_char(k - 1, c));
        let b = stage_char(k - 1, c);
        assert(flat_map_chars(s, |c: char| stage_char(k - 1, c)) == a + b);
        assert(flat_map_chars(s, |c: char| stage_char(k, c)) == flat_map_chars(d, |c: char| stage_char(k, c))
            + stage_char(k, c));
        lemma_amp_complete_add(a, b);
        assert(p.len() >= 4);
        assert forall|j: int| 0 <= j < a.len() && occurs_at(a + b, p, j) implies j + p.len() <= a.len() by {
            assert((a + b).subrange(j, j + p.len())[0] == (a + b)[j]);
            assert((a + b).subrange(j, j + p.len())[1] == (a + b)[j + 1]);
            assert((a + b)[j] == a[j]);
            assert(a[j] == '&');
            assert((a + b)[j + 1] == a[j + 1]);
        }
        lemma_replace_split(a, b, p, w, 0);
    }
}

proof fn lemma_flat_map_id(s: Seq<char>)
    ensures
        flat_map_chars(s, |c: char| seq![c]) == s,
    decreases s.len(),
{
    if s.len() > 0 {
        lemma_flat_map_id(s.drop_last());
        assert(s.drop_last() + seq![s.last()] =~= s);
    } else {
        assert(flat_map_chars(s, |c: char| seq![c]) =~= s);
    }
}

/// Decoding escaped XML by replacing `&lt;`, `&gt;`, `&quot;`, `&#39;`,
/// and last `&amp;`, gives the text back: the ampersand is escaped first
/// and decoded last, so nothing is decoded twice.
pub proof fn law_xml_escape_decodes_by_replacing(s: Seq<char>)
    ensures
        xml_decode_replace(xml_escape_spec(s)) == s,
{
    reveal_strlit("&amp;");
    reveal_strlit("&lt;");
    reveal_strlit("&gt;");
    reveal_strlit("&quot;");
    reveal_strlit("&#39;");
    reveal_strlit("<");
    reveal_strlit(">");
    reveal_strlit("\"");
    reveal_strlit("'");
    reveal_strlit("&");
    assert forall|c: char| #[trigger] stage_char(0, c) == xml_escape_char(c) by {
        assert(!(exists|m: int| 1 <= m <= 0 && #[trigger] entity_char(m) == c));
    }
    assert((|c: char| stage_char(0, c)) =~= (|c: char| xml_escape_char(c)));
    lemma_stage(s, 1);
    lemma_stage(s, 2);
    lemma_stage(s, 3);
    lemma_stage(s, 4);
    lemma_stage(s, 5);
    assert forall|c: char| #[trigger] stage_char(5, c) == seq![c] by {
        if c == '<' {
            assert(entity_char(1) == c);
        } else if c == '>' {
            assert(entity_char(2) == c);
        } else if c == '"' {
            assert(entity_char(3) == c);
        } else if c == '\'' {
            assert(entity_char(4) == c);
        } else if c == '&' {
            assert(entity_char(5) == c);
        }
    }
    assert((|c: char| stage_char(5, c)) =~= (|c: char| seq![c]));
    lemma_flat_map_id(s);
    assert(entity_pat(1) == "&lt;"@ && seq![entity_char(1)] == "<"@);
    assert(entity_pat(2) == "&gt;"@ && seq![entity_char(2)] == ">"@);
    assert(entity_pat(3) == "&quot;"@ && seq![entity_char(3)] == "\""@);
    assert(entity_pat(4) == "&#39;"@ && seq![entity_char(4)] == "'"@);
    assert(entity_pat(5) == "&amp;"@ && seq![entity_char(5)] == "&"@);
}

} // verus!
