//! Correctness checks for a flowchart, surfaced by the `validate_flowchart`
//! tool.
//!
//! Properties:
//!   G1  every decision branch is labeled
//!   G2  a non-decision step has at most one outgoing edge
//!   G3  every node is reachable from a start and can reach an end
//!   L1  no node boxes overlap
//!   L2  a decision box is large enough for its label
//!
//! The structural properties (G*) are decided here from the model alone.
//! The layout properties (L*) need the laid-out boxes; what was measured on
//! them comes in as [`LayoutFacts`] and is reported here.

use vstd::prelude::*;

use super::chart::string_views;
use super::{find_node, first_index, node_ids, Edge, Flowchart, Node, Shape};
use crate::text::{
    blank, chars_of, copy_string, decimal, is_blank, owned, push_decimal, push_decimal_wide, push_str, str_eq,
};

verus! {

/// A single property violation.
#[derive(Debug, Clone)]
pub struct Violation {
    pub page: usize,
    pub property: &'static str,
    pub message: String,
}

/// What the laid-out boxes of a chart show.
#[derive(Debug, Clone)]
pub struct LayoutFacts {
    /// Node positions `(i, j)`, `i < j`, whose boxes overlap, ordered by `i`
    /// and then by `j`.
    pub overlaps: Vec<(usize, usize)>,
    /// Decisions whose box is too small for the label: node position, box
    /// width and height, in node order.
    pub small_decisions: Vec<(usize, u64, u64)>,
}

/// A violation as plain values: page, property, message.
pub type ViolationView = (int, Seq<char>, Seq<char>);

pub open spec fn violation_view(v: Violation) -> ViolationView {
    (v.page as int, v.property@, v.message@)
}

pub open spec fn violation_views(v: Seq<Violation>) -> Seq<ViolationView> {
    v.map_values(|x: Violation| violation_view(x))
}

/// `f(n)` concatenated over the nodes, in order.
pub open spec fn per_node(nodes: Seq<Node>, f: spec_fn(Node) -> Seq<ViolationView>) -> Seq<
    ViolationView,
>
    decreases nodes.len(),
{
    if nodes.len() == 0 {
        Seq::empty()
    } else {
        per_node(nodes.drop_last(), f) + f(nodes.last())
    }
}

proof fn lemma_per_node_step(nodes: Seq<Node>, i: int, f: spec_fn(Node) -> Seq<ViolationView>)
    requires
        0 <= i < nodes.len(),
    ensures
        per_node(nodes.take(i + 1), f) == per_node(nodes.take(i), f) + f(nodes[i]),
{
    assert(nodes.take(i + 1).drop_last() =~= nodes.take(i));
}

fn push_violation(out: &mut Vec<Violation>, page: usize, property: &'static str, message: String)
    ensures
        violation_views(final(out)@) == violation_views(old(out)@).push(
            (page as int, property@, message@),
        ),
{
    out.push(Violation { page, property, message });
    assert(violation_views(out@) =~= violation_views(old(out)@).push(
        (page as int, property@, message@),
    ));
}

// ---------------------------------------------------------------------------
// Degrees
// ---------------------------------------------------------------------------

/// The edge leaves `id`.
pub open spec fn leaves(e: Edge, id: Seq<char>) -> bool {
    e.from@ == id
}

/// The edge has no label, or a blank one.
pub open spec fn unlabeled(e: Edge) -> bool {
    match e.label {
        None => true,
        Some(l) => is_blank(l@),
    }
}

/// Number of edges leaving `id`.
pub open spec fn out_degree(edges: Seq<Edge>, id: Seq<char>) -> nat
    decreases edges.len(),
{
    if edges.len() == 0 {
        0
    } else {
        out_degree(edges.drop_last(), id) + if leaves(edges.last(), id) {
            1nat
        } else {
            0nat
        }
    }
}

/// Number of unlabeled edges leaving `id`.
pub open spec fn unlabeled_out(edges: Seq<Edge>, id: Seq<char>) -> nat
    decreases edges.len(),
{
    if edges.len() == 0 {
        0
    } else {
        unlabeled_out(edges.drop_last(), id) + if leaves(edges.last(), id) && unlabeled(
            edges.last(),
        ) {
            1nat
        } else {
            0nat
        }
    }
}

proof fn lemma_counts_bounded(edges: Seq<Edge>, id: Seq<char>)
    ensures
        unlabeled_out(edges, id) <= out_degree(edges, id) <= edges.len(),
    decreases edges.len(),
{
    if edges.len() > 0 {
        lemma_counts_bounded(edges.drop_last(), id);
    }
}

/// Out-degree of `id` and how many of those edges are unlabeled.
pub fn count_out(edges: &Vec<Edge>, id: &str) -> (r: (usize, usize))
    ensures
        r.0 == out_degree(edges@, id@),
        r.1 == unlabeled_out(edges@, id@),
{
    let mut deg: usize = 0;
    let mut unl: usize = 0;
    let mut k: usize = 0;
    while k < edges.len()
        invariant
            k <= edges.len(),
            deg == out_degree(edges@.take(k as int), id@),
            unl == unlabeled_out(edges@.take(k as int), id@),
            deg <= k,
        decreases edges.len() - k,
    {
        proof {
            assert(edges@.take(k + 1).drop_last() =~= edges@.take(k as int));
            lemma_counts_bounded(edges@.take(k as int), id@);
        }
        let e = &edges[k];
        if str_eq(e.from.as_str(), id) {
            deg += 1;
            let bare = match &e.label {
                None => true,
                Some(l) => {
                    let v = chars_of(l.as_str());
                    blank(&v)
                },
            };
            if bare {
                unl += 1;
            }
        }
        k += 1;
    }
    assert(edges@.take(edges.len() as int) =~= edges@);
    (deg, unl)
}

// ---------------------------------------------------------------------------
// G1 and G2
// ---------------------------------------------------------------------------

pub open spec fn g1_many_msg(id: Seq<char>, unl: nat, outs: nat) -> Seq<char> {
    "decision '"@ + id + "' has "@ + decimal(unl) + "/"@ + decimal(outs)
        + " unlabeled branches"@
}

pub open spec fn g1_few_msg(id: Seq<char>, outs: nat) -> Seq<char> {
    "decision '"@ + id + "' has "@ + decimal(outs) + " branch(es); a decision needs >=2"@
}

/// G1 for one node: a decision has at least two branches, all labeled.
pub open spec fn g1_node(edges: Seq<Edge>, page: int) -> spec_fn(Node) -> Seq<ViolationView> {
    |n: Node|
        {
            let outs = out_degree(edges, n.id@);
            let unl = unlabeled_out(edges, n.id@);
            if n.shape != Shape::Diamond {
                Seq::empty()
            } else if outs >= 2 {
                if unl > 0 {
                    seq![(page, "G1"@, g1_many_msg(n.id@, unl, outs))]
                } else {
                    Seq::empty()
                }
            } else {
                seq![(page, "G1"@, g1_few_msg(n.id@, outs))]
            }
        }
}

pub open spec fn g2_msg(id: Seq<char>, deg: nat) -> Seq<char> {
    "step '"@ + id + "' has "@ + decimal(deg) + " outgoing edges (use a decision for branching)"@
}

/// G2 for one node: a step that is neither a decision nor a terminator has
/// at most one outgoing edge.
pub open spec fn g2_node(edges: Seq<Edge>, page: int) -> spec_fn(Node) -> Seq<ViolationView> {
    |n: Node|
        {
            let deg = out_degree(edges, n.id@);
            if n.shape == Shape::Diamond || n.shape == Shape::Stadium || deg <= 1 {
                Seq::empty()
            } else {
                seq![(page, "G2"@, g2_msg(n.id@, deg))]
            }
        }
}

fn check_g1(fc: &Flowchart, page: usize, out: &mut Vec<Violation>)
    ensures
        violation_views(final(out)@) == violation_views(old(out)@) + per_node(
            fc.nodes@,
            g1_node(fc.edges@, page as int),
        ),
{
    let ghost f = g1_node(fc.edges@, page as int);
    let ghost base = violation_views(out@);
    let mut i: usize = 0;
    while i < fc.nodes.len()
        invariant
            i <= fc.nodes.len(),
            f == g1_node(fc.edges@, page as int),
            violation_views(out@) == base + per_node(fc.nodes@.take(i as int), f),
        decreases fc.nodes.len() - i,
    {
        proof {
            lemma_per_node_step(fc.nodes@, i as int, f);
        }
        let n = &fc.nodes[i];
        if n.shape == Shape::Diamond {
            let (outs, unl) = count_out(&fc.edges, n.id.as_str());
            if outs >= 2 {
                if unl > 0 {
                    let mut m = owned("decision '");
                    push_str(&mut m, n.id.as_str());
                    push_str(&mut m, "' has ");
                    push_decimal(&mut m, unl);
                    push_str(&mut m, "/");
                    push_decimal(&mut m, outs);
                    push_str(&mut m, " unlabeled branches");
                    push_violation(out, page, "G1", m);
                }
            } else {
                let mut m = owned("decision '");
                push_str(&mut m, n.id.as_str());
                push_str(&mut m, "' has ");
                push_decimal(&mut m, outs);
                push_str(&mut m, " branch(es); a decision needs >=2");
                push_violation(out, page, "G1", m);
            }
        }
        proof {
            assert(violation_views(out@) =~= base + per_node(fc.nodes@.take(i + 1), f));
        }
        i += 1;
    }
    assert(fc.nodes@.take(fc.nodes.len() as int) =~= fc.nodes@);
}

fn check_g2(fc: &Flowchart, page: usize, out: &mut Vec<Violation>)
    ensures
        violation_views(final(out)@) == violation_views(old(out)@) + per_node(
            fc.nodes@,
            g2_node(fc.edges@, page as int),
        ),
{
    let ghost f = g2_node(fc.edges@, page as int);
    let ghost base = violation_views(out@);
    let mut i: usize = 0;
    while i < fc.nodes.len()
        invariant
            i <= fc.nodes.len(),
            f == g2_node(fc.edges@, page as int),
            violation_views(out@) == base + per_node(fc.nodes@.take(i as int), f),
        decreases fc.nodes.len() - i,
    {
        proof {
            lemma_per_node_step(fc.nodes@, i as int, f);
        }
        let n = &fc.nodes[i];
        if n.shape != Shape::Diamond && n.shape != Shape::Stadium {
            let (deg, _unl) = count_out(&fc.edges, n.id.as_str());
            if deg > 1 {
                let mut m = owned("step '");
                push_str(&mut m, n.id.as_str());
                push_str(&mut m, "' has ");
                push_decimal(&mut m, deg);
                push_str(&mut m, " outgoing edges (use a decision for branching)");
                push_violation(out, page, "G2", m);
            }
        }
        proof {
            assert(violation_views(out@) =~= base + per_node(fc.nodes@.take(i + 1), f));
        }
        i += 1;
    }
    assert(fc.nodes@.take(fc.nodes.len() as int) =~= fc.nodes@);
}

// ---------------------------------------------------------------------------
// G3: reachability
// ---------------------------------------------------------------------------

/// Edge `k` leads from `a` to `b`, read forwards or (`fwd` false) backwards.
pub open spec fn link_at(edges: Seq<Edge>, fwd: bool, k: int, a: Seq<char>, b: Seq<char>) -> bool {
    if fwd {
        edges[k].from@ == a && edges[k].to@ == b
    } else {
        edges[k].to@ == a && edges[k].from@ == b
    }
}

/// Some edge leads from `a` to `b`.
pub open spec fn linked(edges: Seq<Edge>, fwd: bool, a: Seq<char>, b: Seq<char>) -> bool {
    exists|k: int| 0 <= k < edges.len() && #[trigger] link_at(edges, fwd, k, a, b)
}

/// `p` is a walk along the edges that starts at one of the seeds.
pub open spec fn is_walk(edges: Seq<Edge>, fwd: bool, seeds: Seq<Seq<char>>, p: Seq<Seq<char>>) -> bool {
    &&& p.len() > 0
    &&& seeds.contains(p[0])
    &&& forall|i: int| 0 <= i < p.len() - 1 ==> #[trigger] linked(edges, fwd, p[i], p[i + 1])
}

/// Some walk from a seed ends at `x`.
pub open spec fn reachable(edges: Seq<Edge>, fwd: bool, seeds: Seq<Seq<char>>, x: Seq<char>) -> bool {
    exists|p: Seq<Seq<char>>| #[trigger] is_walk(edges, fwd, seeds, p) && p.last() == x
}

/// Every edge out of `u` leads into `s`.
pub open spec fn closed_at(edges: Seq<Edge>, fwd: bool, s: Seq<Seq<char>>, u: Seq<char>) -> bool {
    forall|k: int, b: Seq<char>|
        0 <= k < edges.len() && #[trigger] link_at(edges, fwd, k, u, b) ==> s.contains(b)
}

/// The ids a search can ever meet: the seeds and the far ends of the edges.
pub open spec fn universe(edges: Seq<Edge>, fwd: bool, seeds: Seq<Seq<char>>) -> Seq<Seq<char>> {
    seeds + edges.map_values(|e: Edge| if fwd { e.to@ } else { e.from@ })
}

/// How many entries of `u` are not yet in `s`.
pub open spec fn unseen(u: Seq<Seq<char>>, s: Seq<Seq<char>>) -> nat
    decreases u.len(),
{
    if u.len() == 0 {
        0
    } else {
        unseen(u.drop_last(), s) + if s.contains(u.last()) {
            0nat
        } else {
            1nat
        }
    }
}

pub proof fn lemma_unseen_push(u: Seq<Seq<char>>, s: Seq<Seq<char>>, x: Seq<char>)
    ensures
        unseen(u, s.push(x)) <= unseen(u, s),
        u.contains(x) && !s.contains(x) ==> unseen(u, s.push(x)) < unseen(u, s),
    decreases u.len(),
{
    if u.len() > 0 {
        lemma_unseen_push(u.drop_last(), s, x);
        lemma_contains_push(s, x, u.last());
        if u.contains(x) && !s.contains(x) {
            if u.last() != x {
                let j = choose|j: int| 0 <= j < u.len() && u[j] == x;
                assert(u.drop_last()[j] == x);
            }
        }
    }
}

/// A set that holds the seeds and is closed along the edges holds every
/// id reachable from the seeds.
proof fn lemma_closed_holds_walk(
    edges: Seq<Edge>,
    fwd: bool,
    seeds: Seq<Seq<char>>,
    s: Seq<Seq<char>>,
    p: Seq<Seq<char>>,
)
    requires
        forall|x: Seq<char>| seeds.contains(x) ==> s.contains(x),
        forall|u: Seq<char>| s.contains(u) ==> closed_at(edges, fwd, s, u),
        is_walk(edges, fwd, seeds, p),
    ensures
        s.contains(p.last()),
    decreases p.len(),
{
    if p.len() > 1 {
        let q = p.drop_last();
        assert forall|i: int| 0 <= i < q.len() - 1 implies #[trigger] linked(
            edges,
            fwd,
            q[i],
            q[i + 1],
        ) by {
            assert(linked(edges, fwd, p[i], p[i + 1]));
        }
        assert(is_walk(edges, fwd, seeds, q));
        lemma_closed_holds_walk(edges, fwd, seeds, s, q);
        let i = p.len() - 2;
        assert(linked(edges, fwd, p[i], p[i + 1]));
        let k = choose|k: int| 0 <= k < edges.len() && #[trigger] link_at(edges, fwd, k, p[i], p[i + 1]);
        assert(closed_at(edges, fwd, s, q.last()));
    }
}

/// A walk extended by one edge is a walk.
proof fn lemma_walk_extend(
    edges: Seq<Edge>,
    fwd: bool,
    seeds: Seq<Seq<char>>,
    p: Seq<Seq<char>>,
    k: int,
    b: Seq<char>,
)
    requires
        is_walk(edges, fwd, seeds, p),
        0 <= k < edges.len(),
        link_at(edges, fwd, k, p.last(), b),
    ensures
        is_walk(edges, fwd, seeds, p.push(b)),
        p.push(b).last() == b,
{
    let q = p.push(b);
    assert forall|i: int| 0 <= i < q.len() - 1 implies #[trigger] linked(edges, fwd, q[i], q[i + 1]) by {
        if i < p.len() - 1 {
            assert(q[i] == p[i] && q[i + 1] == p[i + 1]);
            assert(linked(edges, fwd, p[i], p[i + 1]));
        } else {
            assert(q[i] == p.last() && q[i + 1] == b);
            assert(link_at(edges, fwd, k, q[i], q[i + 1]));
        }
    }
    assert(q[0] == p[0]);
}

/// Whether `v` holds a string equal to `s`.
pub fn holds(v: &Vec<String>, s: &str) -> (r: bool)
    ensures
        r == string_views(v@).contains(s@),
{
    let mut i: usize = 0;
    while i < v.len()
        invariant
            i <= v.len(),
            forall|j: int| 0 <= j < i ==> v@[j]@ != s@,
        decreases v.len() - i,
    {
        if str_eq(v[i].as_str(), s) {
            assert(string_views(v@)[i as int] == s@);
            return true;
        }
        i += 1;
    }
    proof {
        if string_views(v@).contains(s@) {
            let j = choose|j: int| 0 <= j < v@.len() && string_views(v@)[j] == s@;
            assert(v@[j]@ == s@);
        }
    }
    false
}

pub proof fn lemma_views_push(v: Seq<String>, x: String)
    ensures
        string_views(v.push(x)) == string_views(v).push(x@),
{
    assert(string_views(v.push(x)) =~= string_views(v).push(x@));
}

pub proof fn lemma_contains_push(s: Seq<Seq<char>>, x: Seq<char>, y: Seq<char>)
    ensures
        s.push(x).contains(y) == (s.contains(y) || y == x),
{
    if s.contains(y) {
        let j = choose|j: int| 0 <= j < s.len() && s[j] == y;
        assert(s.push(x)[j] == y);
    }
    if s.push(x).contains(y) {
        let j = choose|j: int| 0 <= j < s.len() + 1 && s.push(x)[j] == y;
        if j < s.len() {
            assert(s[j] == y);
        }
    }
    assert(s.push(x)[s.len() as int] == x);
}

proof fn lemma_closed_mono(edges: Seq<Edge>, fwd: bool, s: Seq<Seq<char>>, x: Seq<char>, u: Seq<char>)
    requires
        closed_at(edges, fwd, s, u),
    ensures
        closed_at(edges, fwd, s.push(x), u),
{
    assert forall|k: int, b: Seq<char>|
        0 <= k < edges.len() && #[trigger] link_at(edges, fwd, k, u, b) implies s.push(x).contains(
        b,
    ) by {
        lemma_contains_push(s, x, b);
    }
}

/// The search invariant: everything seen is reachable and lies in the
/// universe, the stack is part of what was seen, and what was seen and is
/// off the stack (other than `cur`) has all its successors seen.
pub open spec fn search_inv(
    edges: Seq<Edge>,
    fwd: bool,
    sv: Seq<Seq<char>>,
    seen: Seq<Seq<char>>,
    stack: Seq<Seq<char>>,
    cur: Option<Seq<char>>,
) -> bool {
    &&& forall|x: Seq<char>| seen.contains(x) ==> #[trigger] reachable(edges, fwd, sv, x)
    &&& forall|x: Seq<char>| stack.contains(x) ==> seen.contains(x)
    &&& forall|x: Seq<char>| seen.contains(x) ==> #[trigger] universe(edges, fwd, sv).contains(x)
    &&& forall|u: Seq<char>|
        seen.contains(u) && !stack.contains(u) && cur != Some(u) ==> closed_at(edges, fwd, seen, u)
}

/// Adding a reachable id of the universe to both the seen list and the stack
/// keeps the search invariant.
proof fn lemma_search_add(
    edges: Seq<Edge>,
    fwd: bool,
    sv: Seq<Seq<char>>,
    seen: Seq<Seq<char>>,
    stack: Seq<Seq<char>>,
    cur: Option<Seq<char>>,
    x: Seq<char>,
)
    requires
        search_inv(edges, fwd, sv, seen, stack, cur),
        reachable(edges, fwd, sv, x),
        universe(edges, fwd, sv).contains(x),
    ensures
        search_inv(edges, fwd, sv, seen.push(x), stack.push(x), cur),
{
    let seen2 = seen.push(x);
    let stack2 = stack.push(x);
    assert forall|y: Seq<char>| seen2.contains(y) implies #[trigger] reachable(edges, fwd, sv, y) by {
        lemma_contains_push(seen, x, y);
    }
    assert forall|y: Seq<char>| stack2.contains(y) implies seen2.contains(y) by {
        lemma_contains_push(seen, x, y);
        lemma_contains_push(stack, x, y);
    }
    assert forall|y: Seq<char>| seen2.contains(y) implies #[trigger] universe(
        edges,
        fwd,
        sv,
    ).contains(y) by {
        lemma_contains_push(seen, x, y);
    }
    assert forall|u: Seq<char>|
        seen2.contains(u) && !stack2.contains(u) && cur != Some(u) implies closed_at(
        edges,
        fwd,
        seen2,
        u,
    ) by {
        lemma_contains_push(seen, x, u);
        lemma_contains_push(stack, x, u);
        lemma_closed_mono(edges, fwd, seen, x, u);
    }
}

/// The ids reachable from `seeds` along the edges (read forwards, or
/// backwards when `fwd` is false), found by a depth-first search.
pub fn reach_from(edges: &Vec<Edge>, fwd: bool, seeds: &Vec<String>) -> (seen: Vec<String>)
    ensures
        forall|x: Seq<char>|
            string_views(seen@).contains(x) <==> reachable(edges@, fwd, string_views(seeds@), x),
{
    let ghost sv = string_views(seeds@);
    let ghost uni = universe(edges@, fwd, sv);
    let mut seen: Vec<String> = Vec::new();
    let mut stack: Vec<String> = Vec::new();
    let mut i: usize = 0;
    assert(string_views(seen@) =~= Seq::<Seq<char>>::empty());
    assert(string_views(stack@) =~= Seq::<Seq<char>>::empty());
    while i < seeds.len()
        invariant
            i <= seeds.len(),
            sv == string_views(seeds@),
            uni == universe(edges@, fwd, sv),
            search_inv(edges@, fwd, sv, string_views(seen@), string_views(stack@), None),
            forall|j: int| 0 <= j < i ==> string_views(seen@).contains(#[trigger] sv[j]),
        decreases seeds.len() - i,
    {
        let s = &seeds[i];
        if !holds(&seen, s.as_str()) {
            proof {
                let w = seq![s@];
                assert(sv[i as int] == s@);
                assert(is_walk(edges@, fwd, sv, w));
                assert(uni[i as int] == s@);
                lemma_search_add(
                    edges@,
                    fwd,
                    sv,
                    string_views(seen@),
                    string_views(stack@),
                    None,
                    s@,
                );
                lemma_views_push(seen@, *s);
                lemma_views_push(stack@, *s);
            }
            let ghost old_seen = string_views(seen@);
            seen.push(copy_string(s));
            stack.push(copy_string(s));
            proof {
                assert forall|j: int| 0 <= j < i + 1 implies string_views(seen@).contains(
                    #[trigger] sv[j],
                ) by {
                    lemma_contains_push(old_seen, s@, sv[j]);
                }
            }
        }
        i += 1;
    }
    while stack.len() > 0
        invariant
            sv == string_views(seeds@),
            uni == universe(edges@, fwd, sv),
            search_inv(edges@, fwd, sv, string_views(seen@), string_views(stack@), None),
            forall|j: int|
                0 <= j < seeds@.len() ==> string_views(seen@).contains(#[trigger] sv[j]),
        decreases unseen(uni, string_views(seen@)), stack.len(),
    {
        let ghost stack_before = string_views(stack@);
        let u = stack.pop().unwrap();
        let ghost u0 = unseen(uni, string_views(seen@));
        let ghost s0 = stack@.len();
        proof {
            assert(stack_before =~= string_views(stack@).push(u@));
            assert forall|x: Seq<char>| #[trigger] string_views(stack@).contains(x) implies string_views(
                seen@,
            ).contains(x) by {
                lemma_contains_push(string_views(stack@), u@, x);
            }
            assert forall|w: Seq<char>|
                string_views(seen@).contains(w) && !string_views(stack@).contains(w) && Some(u@)
                    != Some(w) implies closed_at(edges@, fwd, string_views(seen@), w) by {
                lemma_contains_push(string_views(stack@), u@, w);
            }
            lemma_contains_push(string_views(stack@), u@, u@);
        }
        let mut k: usize = 0;
        while k < edges.len()
            invariant
                k <= edges.len(),
                sv == string_views(seeds@),
                uni == universe(edges@, fwd, sv),
                search_inv(edges@, fwd, sv, string_views(seen@), string_views(stack@), Some(u@)),
                forall|j: int|
                    0 <= j < seeds@.len() ==> string_views(seen@).contains(#[trigger] sv[j]),
                string_views(seen@).contains(u@),
                forall|kk: int, b: Seq<char>|
                    0 <= kk < k && #[trigger] link_at(edges@, fwd, kk, u@, b) ==> string_views(
                        seen@,
                    ).contains(b),
                stack@.len() >= s0,
                unseen(uni, string_views(seen@)) + (stack@.len() - s0) <= u0,
            decreases edges.len() - k,
        {
            let e = &edges[k];
            let a = if fwd {
                &e.from
            } else {
                &e.to
            };
            let b = if fwd {
                &e.to
            } else {
                &e.from
            };
            if str_eq(a.as_str(), u.as_str()) && !holds(&seen, b.as_str()) {
                proof {
                    assert(reachable(edges@, fwd, sv, u@));
                    let p = choose|p: Seq<Seq<char>>|
                        #[trigger] is_walk(edges@, fwd, sv, p) && p.last() == u@;
                    lemma_walk_extend(edges@, fwd, sv, p, k as int, b@);
                    assert(uni[sv.len() + k] == b@);
                    lemma_search_add(
                        edges@,
                        fwd,
                        sv,
                        string_views(seen@),
                        string_views(stack@),
                        Some(u@),
                        b@,
                    );
                    lemma_unseen_push(uni, string_views(seen@), b@);
                    lemma_views_push(seen@, *b);
                    lemma_views_push(stack@, *b);
                }
                let ghost old_seen = string_views(seen@);
                seen.push(copy_string(b));
                stack.push(copy_string(b));
                proof {
                    assert forall|j: int| 0 <= j < seeds@.len() implies string_views(
                        seen@,
                    ).contains(#[trigger] sv[j]) by {
                        lemma_contains_push(old_seen, b@, sv[j]);
                    }
                    lemma_contains_push(old_seen, b@, u@);
                    assert forall|kk: int, c: Seq<char>|
                        0 <= kk < k + 1 && #[trigger] link_at(
                            edges@,
                            fwd,
                            kk,
                            u@,
                            c,
                        ) implies string_views(seen@).contains(c) by {
                        lemma_contains_push(old_seen, b@, c);
                    }
                }
            }
            k += 1;
        }
        proof {
            assert(closed_at(edges@, fwd, string_views(seen@), u@));
        }
    }
    proof {
        assert forall|x: Seq<char>| reachable(edges@, fwd, sv, x) implies string_views(
            seen@,
        ).contains(x) by {
            let p = choose|p: Seq<Seq<char>>| #[trigger] is_walk(edges@, fwd, sv, p) && p.last() == x;
            assert forall|y: Seq<char>| sv.contains(y) implies string_views(seen@).contains(y) by {
                let j = choose|j: int| 0 <= j < sv.len() && sv[j] == y;
                assert(string_views(seen@).contains(sv[j]));
            }
            assert(string_views(stack@) =~= Seq::<Seq<char>>::empty());
            lemma_closed_holds_walk(edges@, fwd, sv, string_views(seen@), p);
        }
    }
    seen
}

/// Number of edges entering `id`.
pub open spec fn in_degree(edges: Seq<Edge>, id: Seq<char>) -> nat
    decreases edges.len(),
{
    if edges.len() == 0 {
        0
    } else {
        in_degree(edges.drop_last(), id) + if edges.last().to@ == id {
            1nat
        } else {
            0nat
        }
    }
}

pub fn count_in(edges: &Vec<Edge>, id: &str) -> (r: usize)
    ensures
        r == in_degree(edges@, id@),
{
    let mut deg: usize = 0;
    let mut k: usize = 0;
    while k < edges.len()
        invariant
            k <= edges.len(),
            deg == in_degree(edges@.take(k as int), id@),
            deg <= k,
        decreases edges.len() - k,
    {
        assert(edges@.take(k + 1).drop_last() =~= edges@.take(k as int));
        if str_eq(edges[k].to.as_str(), id) {
            deg += 1;
        }
        k += 1;
    }
    assert(edges@.take(edges.len() as int) =~= edges@);
    deg
}

/// The first node with id `id` is a terminator.
pub open spec fn is_terminal_id(nodes: Seq<Node>, id: Seq<char>) -> bool {
    match first_index(node_ids(nodes), id) {
        Some(i) => nodes[i].shape == Shape::Stadium,
        None => false,
    }
}

/// A start: a terminator with outgoing and no incoming edges (`start`
/// true); an end: a terminator with incoming and no outgoing edges.
pub open spec fn is_boundary(fc: Flowchart, n: Node, start: bool) -> bool {
    &&& is_terminal_id(fc.nodes@, n.id@)
    &&& if start {
        out_degree(fc.edges@, n.id@) > 0 && in_degree(fc.edges@, n.id@) == 0
    } else {
        in_degree(fc.edges@, n.id@) > 0 && out_degree(fc.edges@, n.id@) == 0
    }
}

/// Ids of the nodes among `nodes` that are starts (or ends) of `fc`.
pub open spec fn boundary_ids(fc: Flowchart, nodes: Seq<Node>, start: bool) -> Seq<Seq<char>>
    decreases nodes.len(),
{
    if nodes.len() == 0 {
        Seq::empty()
    } else {
        boundary_ids(fc, nodes.drop_last(), start) + if is_boundary(fc, nodes.last(), start) {
            seq![nodes.last().id@]
        } else {
            Seq::<Seq<char>>::empty()
        }
    }
}

/// Where the searches begin: the starts (ends), or the first (last) node
/// when the chart has none.
pub open spec fn search_seeds(fc: Flowchart, start: bool) -> Seq<Seq<char>> {
    let b = boundary_ids(fc, fc.nodes@, start);
    if b.len() > 0 {
        b
    } else if fc.nodes@.len() == 0 {
        Seq::empty()
    } else if start {
        seq![fc.nodes@[0].id@]
    } else {
        seq![fc.nodes@.last().id@]
    }
}

fn seeds_of(fc: &Flowchart, start: bool) -> (r: Vec<String>)
    ensures
        string_views(r@) == search_seeds(*fc, start),
{
    let mut r: Vec<String> = Vec::new();
    let mut i: usize = 0;
    while i < fc.nodes.len()
        invariant
            i <= fc.nodes.len(),
            string_views(r@) == boundary_ids(*fc, fc.nodes@.take(i as int), start),
        decreases fc.nodes.len() - i,
    {
        assert(fc.nodes@.take(i + 1).drop_last() =~= fc.nodes@.take(i as int));
        let n = &fc.nodes[i];
        let terminal = match find_node(&fc.nodes, n.id.as_str()) {
            Some(j) => fc.nodes[j].shape == Shape::Stadium,
            None => false,
        };
        let (outs, _unl) = count_out(&fc.edges, n.id.as_str());
        let ins = count_in(&fc.edges, n.id.as_str());
        let hit = terminal && if start {
            outs > 0 && ins == 0
        } else {
            ins > 0 && outs == 0
        };
        if hit {
            proof {
                lemma_views_push(r@, n.id);
            }
            r.push(copy_string(&n.id));
        }
        assert(string_views(r@) =~= boundary_ids(*fc, fc.nodes@.take(i + 1), start));
        i += 1;
    }
    assert(fc.nodes@.take(fc.nodes.len() as int) =~= fc.nodes@);
    if r.len() == 0 && fc.nodes.len() > 0 {
        let id = if start {
            copy_string(&fc.nodes[0].id)
        } else {
            copy_string(&fc.nodes[fc.nodes.len() - 1].id)
        };
        proof {
            lemma_views_push(r@, id);
        }
        r.push(id);
        assert(string_views(r@) =~= search_seeds(*fc, start));
    }
    r
}

pub open spec fn g3_unreached_msg(id: Seq<char>) -> Seq<char> {
    "node '"@ + id + "' is not reachable from a start"@
}

pub open spec fn g3_dead_end_msg(id: Seq<char>) -> Seq<char> {
    "node '"@ + id + "' cannot reach an end"@
}

/// G3 for one node: it is reachable from a start and reaches an end.
pub open spec fn g3_node(fc: Flowchart, page: int) -> spec_fn(Node) -> Seq<ViolationView> {
    |n: Node|
        if !reachable(fc.edges@, true, search_seeds(fc, true), n.id@) {
            seq![(page, "G3"@, g3_unreached_msg(n.id@))]
        } else if !reachable(fc.edges@, false, search_seeds(fc, false), n.id@) {
            seq![(page, "G3"@, g3_dead_end_msg(n.id@))]
        } else {
            Seq::empty()
        }
}

fn check_g3(fc: &Flowchart, page: usize, out: &mut Vec<Violation>)
    ensures
        violation_views(final(out)@) == violation_views(old(out)@) + per_node(
            fc.nodes@,
            g3_node(*fc, page as int),
        ),
{
    let starts = seeds_of(fc, true);
    let ends = seeds_of(fc, false);
    let fwd = reach_from(&fc.edges, true, &starts);
    let bwd = reach_from(&fc.edges, false, &ends);
    let ghost f = g3_node(*fc, page as int);
    let ghost base = violation_views(out@);
    let mut i: usize = 0;
    while i < fc.nodes.len()
        invariant
            i <= fc.nodes.len(),
            f == g3_node(*fc, page as int),
            violation_views(out@) == base + per_node(fc.nodes@.take(i as int), f),
            forall|x: Seq<char>|
                string_views(fwd@).contains(x) <==> reachable(
                    fc.edges@,
                    true,
                    search_seeds(*fc, true),
                    x,
                ),
            forall|x: Seq<char>|
                string_views(bwd@).contains(x) <==> reachable(
                    fc.edges@,
                    false,
                    search_seeds(*fc, false),
                    x,
                ),
        decreases fc.nodes.len() - i,
    {
        proof {
            lemma_per_node_step(fc.nodes@, i as int, f);
        }
        let n = &fc.nodes[i];
        if !holds(&fwd, n.id.as_str()) {
            let mut m = owned("node '");
            push_str(&mut m, n.id.as_str());
            push_str(&mut m, "' is not reachable from a start");
            push_violation(out, page, "G3", m);
        } else if !holds(&bwd, n.id.as_str()) {
            let mut m = owned("node '");
            push_str(&mut m, n.id.as_str());
            push_str(&mut m, "' cannot reach an end");
            push_violation(out, page, "G3", m);
        }
        proof {
            assert(violation_views(out@) =~= base + per_node(fc.nodes@.take(i + 1), f));
        }
        i += 1;
    }
    assert(fc.nodes@.take(fc.nodes.len() as int) =~= fc.nodes@);
}

// ---------------------------------------------------------------------------
// L1 and L2, and the whole check
// ---------------------------------------------------------------------------

pub open spec fn l1_msg(a: Seq<char>, b: Seq<char>) -> Seq<char> {
    "nodes '"@ + a + "' and '"@ + b + "' overlap"@
}

pub open spec fn l2_msg(id: Seq<char>, w: nat, h: nat) -> Seq<char> {
    "decision '"@ + id + "' box "@ + decimal(w) + "x"@ + decimal(h) + " too small for its label"@
}

/// The layout facts refer to nodes of the chart.
pub open spec fn facts_fit(fc: Flowchart, facts: LayoutFacts) -> bool {
    &&& forall|k: int|
        0 <= k < facts.overlaps@.len() ==> #[trigger] facts.overlaps@[k].1 < fc.nodes@.len()
            && facts.overlaps@[k].0 < fc.nodes@.len()
    &&& forall|k: int|
        0 <= k < facts.small_decisions@.len() ==> #[trigger] facts.small_decisions@[k].0
            < fc.nodes@.len()
}

/// L1: one violation per overlapping pair.
pub open spec fn l1_views(fc: Flowchart, page: int, pairs: Seq<(usize, usize)>) -> Seq<
    ViolationView,
> {
    pairs.map_values(
        |p: (usize, usize)|
            (page, "L1"@, l1_msg(fc.nodes@[p.0 as int].id@, fc.nodes@[p.1 as int].id@)),
    )
}

/// L2: one violation per decision box too small for its label.
pub open spec fn l2_views(fc: Flowchart, page: int, small: Seq<(usize, u64, u64)>) -> Seq<
    ViolationView,
> {
    small.map_values(
        |d: (usize, u64, u64)|
            (page, "L2"@, l2_msg(fc.nodes@[d.0 as int].id@, d.1 as nat, d.2 as nat)),
    )
}

/// Every violation of `fc`, in the order the checks report them: G1, G2
/// and G3 node by node, then the overlaps, then the small decisions.
pub open spec fn violations(fc: Flowchart, page: int, facts: LayoutFacts) -> Seq<ViolationView> {
    per_node(fc.nodes@, g1_node(fc.edges@, page)) + per_node(fc.nodes@, g2_node(fc.edges@, page))
        + per_node(fc.nodes@, g3_node(fc, page)) + l1_views(fc, page, facts.overlaps@) + l2_views(
        fc,
        page,
        facts.small_decisions@,
    )
}

fn check_l1(fc: &Flowchart, page: usize, pairs: &Vec<(usize, usize)>, out: &mut Vec<Violation>)
    requires
        forall|k: int|
            0 <= k < pairs@.len() ==> #[trigger] pairs@[k].1 < fc.nodes@.len() && pairs@[k].0
                < fc.nodes@.len(),
    ensures
        violation_views(final(out)@) == violation_views(old(out)@) + l1_views(
            *fc,
            page as int,
            pairs@,
        ),
{
    let ghost base = violation_views(out@);
    let mut k: usize = 0;
    while k < pairs.len()
        invariant
            k <= pairs.len(),
            forall|j: int|
                0 <= j < pairs@.len() ==> #[trigger] pairs@[j].1 < fc.nodes@.len() && pairs@[j].0
                    < fc.nodes@.len(),
            violation_views(out@) == base + l1_views(*fc, page as int, pairs@.take(k as int)),
        decreases pairs.len() - k,
    {
        let (a, b) = pairs[k];
        assert(pairs@[k as int].1 < fc.nodes@.len());
        let mut m = owned("nodes '");
        push_str(&mut m, fc.nodes[a].id.as_str());
        push_str(&mut m, "' and '");
        push_str(&mut m, fc.nodes[b].id.as_str());
        push_str(&mut m, "' overlap");
        push_violation(out, page, "L1", m);
        assert(violation_views(out@) =~= base + l1_views(*fc, page as int, pairs@.take(k + 1)));
        k += 1;
    }
    assert(pairs@.take(pairs.len() as int) =~= pairs@);
}

fn check_l2(fc: &Flowchart, page: usize, small: &Vec<(usize, u64, u64)>, out: &mut Vec<Violation>)
    requires
        forall|k: int| 0 <= k < small@.len() ==> #[trigger] small@[k].0 < fc.nodes@.len(),
    ensures
        violation_views(final(out)@) == violation_views(old(out)@) + l2_views(
            *fc,
            page as int,
            small@,
        ),
{
    let ghost base = violation_views(out@);
    let mut k: usize = 0;
    while k < small.len()
        invariant
            k <= small.len(),
            forall|j: int| 0 <= j < small@.len() ==> #[trigger] small@[j].0 < fc.nodes@.len(),
            violation_views(out@) == base + l2_views(*fc, page as int, small@.take(k as int)),
        decreases small.len() - k,
    {
        let (i, w, h) = small[k];
        assert(small@[k as int].0 < fc.nodes@.len());
        let mut m = owned("decision '");
        push_str(&mut m, fc.nodes[i].id.as_str());
        push_str(&mut m, "' box ");
        push_decimal_wide(&mut m, w as u128);
        push_str(&mut m, "x");
        push_decimal_wide(&mut m, h as u128);
        push_str(&mut m, " too small for its label");
        push_violation(out, page, "L2", m);
        assert(violation_views(out@) =~= base + l2_views(*fc, page as int, small@.take(k + 1)));
        k += 1;
    }
    assert(small@.take(small.len() as int) =~= small@);
}

/// Validate one chart; append its violations, tagged with `page`, to `out`.
pub fn check_chart(fc: &Flowchart, page: usize, facts: &LayoutFacts, out: &mut Vec<Violation>)
    requires
        facts_fit(*fc, *facts),
    ensures
        violation_views(final(out)@) == violation_views(old(out)@) + violations(
            *fc,
            page as int,
            *facts,
        ),
{
    let ghost base = violation_views(out@);
    check_g1(fc, page, out);
    check_g2(fc, page, out);
    check_g3(fc, page, out);
    check_l1(fc, page, &facts.overlaps, out);
    check_l2(fc, page, &facts.small_decisions, out);
    assert(violation_views(out@) =~= base + violations(*fc, page as int, *facts));
}


/// The violations of every page, page by page.
pub open spec fn document_violations(pages: Seq<super::Page>, facts: Seq<LayoutFacts>, k: nat) -> Seq<
    ViolationView,
>
    decreases k,
{
    if k == 0 {
        Seq::empty()
    } else {
        document_violations(pages, facts, (k - 1) as nat) + violations(
            pages[k - 1].chart,
            k - 1,
            facts[k - 1],
        )
    }
}

/// Validate every page of a document, each against its own layout facts.
pub fn check_document(doc: &super::Document, facts: &Vec<LayoutFacts>) -> (r: Vec<Violation>)
    requires
        facts@.len() == doc.pages@.len(),
        forall|i: int| 0 <= i < doc.pages@.len() ==> facts_fit(doc.pages@[i].chart, #[trigger] facts@[i]),
    ensures
        violation_views(r@) == document_violations(doc.pages@, facts@, doc.pages@.len()),
{
    let mut out: Vec<Violation> = Vec::new();
    assert(violation_views(out@) =~= Seq::<ViolationView>::empty());
    let mut i: usize = 0;
    while i < doc.pages.len()
        invariant
            facts@.len() == doc.pages@.len(),
            forall|j: int| 0 <= j < doc.pages@.len() ==> facts_fit(doc.pages@[j].chart, #[trigger] facts@[j]),
            i <= doc.pages@.len(),
            violation_views(out@) == document_violations(doc.pages@, facts@, i as nat),
        decreases doc.pages.len() - i,
    {
        assert(facts_fit(doc.pages@[i as int].chart, facts@[i as int]));
        check_chart(&doc.pages[i].chart, i, &facts[i], &mut out);
        i += 1;
    }
    out
}

} // verus!
