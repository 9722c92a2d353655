//! Sequential step numbers for the exported step badges.
//!
//! Steps are the nodes that are not terminators. They are numbered from 1
//! in flow order: a breadth-first walk from the start terminators that have
//! no incoming edge (or, lacking any, from every node with no incoming edge,
//! or else from the first node); steps the walk never reaches follow in
//! declaration order.

use vstd::prelude::*;

use super::chart::string_views;
use super::validate::{
    count_in, holds, in_degree, lemma_contains_push, lemma_unseen_push, lemma_views_push, unseen,
};
use super::{find_node, first_index, node_ids, Edge, Flowchart, Node, Shape};
use crate::text::{copy_string, str_eq};

verus! {

/// A number given to an id.
pub type Numbered = (Seq<char>, int);

/// Ids of the nodes without incoming edges (only terminators when
/// `only_terminals`), in node order.
pub open spec fn no_input_ids(fc: Flowchart, nodes: Seq<Node>, only_terminals: bool) -> Seq<
    Seq<char>,
>
    decreases nodes.len(),
{
    if nodes.len() == 0 {
        Seq::empty()
    } else {
        let n = nodes.last();
        no_input_ids(fc, nodes.drop_last(), only_terminals) + if (!only_terminals || n.shape
            == Shape::Stadium) && in_degree(fc.edges@, n.id@) == 0 {
            seq![n.id@]
        } else {
            Seq::<Seq<char>>::empty()
        }
    }
}

/// The ids the walk starts from.
pub open spec fn walk_seeds(fc: Flowchart) -> Seq<Seq<char>> {
    let starts = no_input_ids(fc, fc.nodes@, true);
    let sources = no_input_ids(fc, fc.nodes@, false);
    if starts.len() > 0 {
        starts
    } else if sources.len() > 0 {
        sources
    } else if fc.nodes@.len() > 0 {
        seq![fc.nodes@[0].id@]
    } else {
        Seq::empty()
    }
}

/// `s` with repeated entries dropped (first occurrences kept).
pub open spec fn dedup(s: Seq<Seq<char>>) -> Seq<Seq<char>>
    decreases s.len(),
{
    if s.len() == 0 {
        Seq::empty()
    } else {
        let d = dedup(s.drop_last());
        if d.contains(s.last()) {
            d
        } else {
            d.push(s.last())
        }
    }
}

/// The first node with this id is a step (not a terminator).
pub open spec fn is_step_id(nodes: Seq<Node>, id: Seq<char>) -> bool {
    match first_index(node_ids(nodes), id) {
        Some(i) => nodes[i].shape != Shape::Stadium,
        None => false,
    }
}

/// Successors of `u` in edge order are appended to the queue and marked
/// seen, unless already seen.
pub open spec fn enqueue_succ(edges: Seq<Edge>, u: Seq<char>, seen: Seq<Seq<char>>, queue: Seq<
    Seq<char>,
>) -> (Seq<Seq<char>>, Seq<Seq<char>>)
    decreases edges.len(),
{
    if edges.len() == 0 {
        (seen, queue)
    } else {
        let st = enqueue_succ(edges.drop_last(), u, seen, queue);
        let e = edges.last();
        if e.from@ == u && !st.0.contains(e.to@) {
            (st.0.push(e.to@), st.1.push(e.to@))
        } else {
            st
        }
    }
}

/// The targets of the edges.
pub open spec fn targets(edges: Seq<Edge>) -> Seq<Seq<char>> {
    edges.map_values(|e: Edge| e.to@)
}

pub proof fn lemma_enqueue_measure(edges: Seq<Edge>, all: Seq<Edge>, u: Seq<char>, seen: Seq<Seq<char>>, queue: Seq<Seq<char>>)
    requires
        forall|k: int| 0 <= k < edges.len() ==> targets(all).contains(#[trigger] edges[k].to@),
    ensures
        ({
            let st = enqueue_succ(edges, u, seen, queue);
            &&& unseen(targets(all), st.0) + st.1.len() <= unseen(targets(all), seen) + queue.len()
            &&& st.1.len() >= queue.len()
            &&& st.1.len() - queue.len() == st.0.len() - seen.len()
        }),
    decreases edges.len(),
{
    if edges.len() > 0 {
        assert forall|k: int| 0 <= k < edges.drop_last().len() implies targets(all).contains(
            #[trigger] edges.drop_last()[k].to@,
        ) by {
            assert(edges.drop_last()[k] == edges[k]);
        }
        lemma_enqueue_measure(edges.drop_last(), all, u, seen, queue);
        let st = enqueue_succ(edges.drop_last(), u, seen, queue);
        let e = edges.last();
        assert(targets(all).contains(edges[edges.len() - 1].to@));
        lemma_unseen_push(targets(all), st.0, e.to@);
    }
}

/// The numbers the walk gives: each dequeued id that is a step gets the
/// next number, then its successors are enqueued.
pub open spec fn walk_numbers(fc: Flowchart, seen: Seq<Seq<char>>, queue: Seq<Seq<char>>, numbers: Seq<
    Numbered,
>) -> Seq<Numbered>
    decreases unseen(targets(fc.edges@), seen), queue.len(),
{
    if queue.len() == 0 {
        numbers
    } else {
        let u = queue[0];
        let nums = if is_step_id(fc.nodes@, u) {
            numbers.push((u, numbers.len() + 1int))
        } else {
            numbers
        };
        let st = enqueue_succ(fc.edges@, u, seen, queue.drop_first());
        proof {
            assert forall|k: int| 0 <= k < fc.edges@.len() implies targets(fc.edges@).contains(
                #[trigger] fc.edges@[k].to@,
            ) by {
                assert(targets(fc.edges@)[k] == fc.edges@[k].to@);
            }
            lemma_enqueue_measure(fc.edges@, fc.edges@, u, seen, queue.drop_first());
        }
        walk_numbers(fc, st.0, st.1, nums)
    }
}

/// The id already has a number.
pub open spec fn numbered(numbers: Seq<Numbered>, id: Seq<char>) -> bool {
    exists|i: int| 0 <= i < numbers.len() && #[trigger] numbers[i].0 == id
}

/// Steps not reached by the walk, numbered on in node order.
pub open spec fn number_rest(nodes: Seq<Node>, numbers: Seq<Numbered>) -> Seq<Numbered>
    decreases nodes.len(),
{
    if nodes.len() == 0 {
        numbers
    } else {
        let prev = number_rest(nodes.drop_last(), numbers);
        let n = nodes.last();
        if n.shape != Shape::Stadium && !numbered(prev, n.id@) {
            prev.push((n.id@, prev.len() + 1int))
        } else {
            prev
        }
    }
}

/// The step numbers of a chart, in the order they are given.
pub open spec fn step_numbers(fc: Flowchart) -> Seq<Numbered> {
    let seeds = dedup(walk_seeds(fc));
    number_rest(fc.nodes@, walk_numbers(fc, seeds, seeds, Seq::empty()))
}

pub open spec fn numbered_views(v: Seq<(String, usize)>) -> Seq<Numbered> {
    v.map_values(|p: (String, usize)| (p.0@, p.1 as int))
}

proof fn lemma_no_input_ids_len(fc: Flowchart, nodes: Seq<Node>, only_terminals: bool)
    ensures
        no_input_ids(fc, nodes, only_terminals).len() <= nodes.len(),
    decreases nodes.len(),
{
    if nodes.len() > 0 {
        lemma_no_input_ids_len(fc, nodes.drop_last(), only_terminals);
    }
}

fn ids_with_no_inputs(fc: &Flowchart, only_terminals: bool) -> (r: Vec<String>)
    ensures
        string_views(r@) == no_input_ids(*fc, fc.nodes@, only_terminals),
        r@.len() <= fc.nodes@.len(),
{
    let mut r: Vec<String> = Vec::new();
    let mut i: usize = 0;
    while i < fc.nodes.len()
        invariant
            i <= fc.nodes.len(),
            string_views(r@) == no_input_ids(*fc, fc.nodes@.take(i as int), only_terminals),
        decreases fc.nodes.len() - i,
    {
        assert(fc.nodes@.take(i + 1).drop_last() =~= fc.nodes@.take(i as int));
        let n = &fc.nodes[i];
        if (!only_terminals || n.shape == Shape::Stadium) && count_in(&fc.edges, n.id.as_str())
            == 0 {
            proof {
                lemma_views_push(r@, n.id);
            }
            r.push(copy_string(&n.id));
        }
        assert(string_views(r@) =~= no_input_ids(*fc, fc.nodes@.take(i + 1), only_terminals));
        i += 1;
    }
    assert(fc.nodes@.take(fc.nodes.len() as int) =~= fc.nodes@);
    proof {
        lemma_no_input_ids_len(*fc, fc.nodes@, only_terminals);
    }
    r
}

fn walk_seed_list(fc: &Flowchart) -> (r: Vec<String>)
    ensures
        string_views(r@) == walk_seeds(*fc),
        r@.len() <= fc.nodes@.len(),
{
    let starts = ids_with_no_inputs(fc, true);
    let sources = ids_with_no_inputs(fc, false);
    if starts.len() > 0 {
        starts
    } else if sources.len() > 0 {
        sources
    } else if fc.nodes.len() > 0 {
        let mut r: Vec<String> = Vec::new();
        r.push(copy_string(&fc.nodes[0].id));
        assert(string_views(r@) =~= seq![fc.nodes@[0].id@]);
        r
    } else {
        let r: Vec<String> = Vec::new();
        assert(string_views(r@) =~= Seq::<Seq<char>>::empty());
        r
    }
}

/// A list without repeats whose entries all lie in `b` is no longer than `b`.
proof fn lemma_distinct_within(a: Seq<Seq<char>>, b: Seq<Seq<char>>)
    requires
        a.no_duplicates(),
        forall|x: Seq<char>| a.contains(x) ==> b.contains(x),
    ensures
        a.len() <= b.len(),
{
    a.unique_seq_to_set();
    b.lemma_cardinality_of_set();
    assert(a.to_set().subset_of(b.to_set()));
    vstd::set_lib::lemma_len_subset(a.to_set(), b.to_set());
}

proof fn lemma_no_dup_push(a: Seq<Seq<char>>, x: Seq<char>)
    requires
        a.no_duplicates(),
        !a.contains(x),
    ensures
        a.push(x).no_duplicates(),
{
    assert forall|i: int, j: int|
        0 <= i < a.len() + 1 && 0 <= j < a.len() + 1 && i != j implies a.push(x)[i] != a.push(
        x,
    )[j] by {
        if i < a.len() && j == a.len() {
            assert(a[i] == a.push(x)[i]);
        } else if j < a.len() && i == a.len() {
            assert(a[j] == a.push(x)[j]);
        }
    }
}

/// The walk's state: `q` holds every id ever enqueued, in order, and the
/// queue is what follows position `qh`; no id is enqueued twice, and every
/// enqueued id is a seed or an edge target.
pub open spec fn walk_inv(fc: Flowchart, seeds: Seq<Seq<char>>, q: Seq<Seq<char>>, qh: int) -> bool {
    &&& 0 <= qh <= q.len()
    &&& q.no_duplicates()
    &&& forall|x: Seq<char>| q.contains(x) ==> (seeds + targets(fc.edges@)).contains(x)
}

proof fn lemma_walk_inv_push(fc: Flowchart, seeds: Seq<Seq<char>>, q: Seq<Seq<char>>, qh: int, x: Seq<char>)
    requires
        walk_inv(fc, seeds, q, qh),
        !q.contains(x),
        (seeds + targets(fc.edges@)).contains(x),
    ensures
        walk_inv(fc, seeds, q.push(x), qh),
{
    lemma_no_dup_push(q, x);
    assert forall|y: Seq<char>| q.push(x).contains(y) implies (seeds + targets(
        fc.edges@,
    )).contains(y) by {
        lemma_contains_push(q, x, y);
    }
}

/// Enqueue the unseen successors of `u`.
fn enqueue_successors(
    fc: &Flowchart,
    u: &String,
    q: &mut Vec<String>,
    qh: usize,
    Ghost(seeds): Ghost<Seq<Seq<char>>>,
)
    requires
        walk_inv(*fc, seeds, string_views(old(q)@), qh as int),
    ensures
        walk_inv(*fc, seeds, string_views(final(q)@), qh as int),
        (string_views(final(q)@), string_views(final(q)@).skip(qh as int)) == enqueue_succ(
            fc.edges@,
            u@,
            string_views(old(q)@),
            string_views(old(q)@).skip(qh as int),
        ),
{
    let ghost seen0 = string_views(q@);
    let ghost queue0 = string_views(q@).skip(qh as int);
    let mut k: usize = 0;
    while k < fc.edges.len()
        invariant
            k <= fc.edges.len(),
            walk_inv(*fc, seeds, string_views(q@), qh as int),
            (string_views(q@), string_views(q@).skip(qh as int)) == enqueue_succ(
                fc.edges@.take(k as int),
                u@,
                seen0,
                queue0,
            ),
        decreases fc.edges.len() - k,
    {
        assert(fc.edges@.take(k + 1).drop_last() =~= fc.edges@.take(k as int));
        let e = &fc.edges[k];
        if str_eq(e.from.as_str(), u.as_str()) && !holds(q, e.to.as_str()) {
            proof {
                assert(targets(fc.edges@)[k as int] == e.to@);
                assert((seeds + targets(fc.edges@))[seeds.len() + k] == e.to@);
                lemma_walk_inv_push(*fc, seeds, string_views(q@), qh as int, e.to@);
                lemma_views_push(q@, e.to);
            }
            let ghost before = string_views(q@);
            q.push(copy_string(&e.to));
            assert(string_views(q@).skip(qh as int) =~= before.skip(qh as int).push(e.to@));
        }
        k += 1;
    }
    assert(fc.edges@.take(fc.edges.len() as int) =~= fc.edges@);
}

fn has_number(numbers: &Vec<(String, usize)>, id: &str) -> (r: bool)
    ensures
        r == numbered(numbered_views(numbers@), id@),
{
    let mut i: usize = 0;
    while i < numbers.len()
        invariant
            i <= numbers.len(),
            forall|j: int| 0 <= j < i ==> numbers@[j].0@ != id@,
        decreases numbers.len() - i,
    {
        if str_eq(numbers[i].0.as_str(), id) {
            assert(numbered_views(numbers@)[i as int].0 == id@);
            return true;
        }
        i += 1;
    }
    proof {
        if numbered(numbered_views(numbers@), id@) {
            let j = choose|j: int|
                0 <= j < numbered_views(numbers@).len() && #[trigger] numbered_views(
                    numbers@,
                )[j].0 == id@;
            assert(numbers@[j].0@ == id@);
        }
    }
    false
}

fn push_number(numbers: &mut Vec<(String, usize)>, id: &String)
    requires
        old(numbers)@.len() < usize::MAX,
    ensures
        numbered_views(final(numbers)@) == numbered_views(old(numbers)@).push(
            (id@, old(numbers)@.len() + 1int),
        ),
        final(numbers)@.len() == old(numbers)@.len() + 1,
{
    let c = numbers.len() + 1;
    numbers.push((copy_string(id), c));
    assert(numbered_views(numbers@) =~= numbered_views(old(numbers)@).push(
        (id@, old(numbers)@.len() + 1int),
    ));
}

/// Step numbers of a chart, as `(node id, number)` pairs in the order they
/// are given (see [`step_numbers`]).
pub fn number_steps(fc: &Flowchart) -> (r: Vec<(String, usize)>)
    requires
        2 * fc.nodes@.len() + fc.edges@.len() <= usize::MAX,
    ensures
        numbered_views(r@) == step_numbers(*fc),
{
    let seeds = walk_seed_list(fc);
    let ghost sv = string_views(seeds@);
    let mut q: Vec<String> = Vec::new();
    let mut i: usize = 0;
    assert(string_views(q@) =~= dedup(sv.take(0)));
    while i < seeds.len()
        invariant
            i <= seeds.len(),
            sv == string_views(seeds@),
            string_views(q@) == dedup(sv.take(i as int)),
            walk_inv(*fc, sv, string_views(q@), 0),
        decreases seeds.len() - i,
    {
        assert(sv.take(i + 1).drop_last() =~= sv.take(i as int));
        assert(sv.take(i + 1).last() == seeds@[i as int]@);
        if !holds(&q, seeds[i].as_str()) {
            proof {
                assert((sv + targets(fc.edges@))[i as int] == sv[i as int]);
                lemma_walk_inv_push(*fc, sv, string_views(q@), 0, seeds@[i as int]@);
                lemma_views_push(q@, seeds@[i as int]);
            }
            q.push(copy_string(&seeds[i]));
        }
        i += 1;
    }
    assert(sv.take(seeds.len() as int) =~= sv);
    let ghost start = dedup(sv);
    let ghost walked = walk_numbers(*fc, start, start, Seq::empty());
    let mut numbers: Vec<(String, usize)> = Vec::new();
    let mut qh: usize = 0;
    assert(string_views(q@).skip(0) =~= string_views(q@));
    assert(numbered_views(numbers@) =~= Seq::<Numbered>::empty());
    while qh < q.len()
        invariant
            walk_inv(*fc, sv, string_views(q@), qh as int),
            walk_numbers(
                *fc,
                string_views(q@),
                string_views(q@).skip(qh as int),
                numbered_views(numbers@),
            ) == walked,
            numbers@.len() <= qh,
        decreases unseen(targets(fc.edges@), string_views(q@)), q@.len() - qh,
    {
        let ghost seen0 = string_views(q@);
        let ghost queue0 = string_views(q@).skip(qh as int);
        let ghost nums0 = numbered_views(numbers@);
        let u = copy_string(&q[qh]);
        assert(u@ == queue0[0]);
        let step = match find_node(&fc.nodes, u.as_str()) {
            Some(j) => fc.nodes[j].shape != Shape::Stadium,
            None => false,
        };
        if step {
            push_number(&mut numbers, &u);
        }
        qh += 1;
        assert(queue0.drop_first() =~= seen0.skip(qh as int));
        enqueue_successors(fc, &u, &mut q, qh, Ghost(sv));
        proof {
            assert forall|k: int| 0 <= k < fc.edges@.len() implies targets(fc.edges@).contains(
                #[trigger] fc.edges@[k].to@,
            ) by {
                assert(targets(fc.edges@)[k] == fc.edges@[k].to@);
            }
            lemma_enqueue_measure(fc.edges@, fc.edges@, u@, seen0, queue0.drop_first());
        }
    }
    assert(string_views(q@).skip(qh as int) =~= Seq::<Seq<char>>::empty());
    assert(numbered_views(numbers@) == walked);
    proof {
        assert forall|x: Seq<char>| string_views(q@).contains(x) implies (sv + targets(
            fc.edges@,
        )).contains(x) by {}
        lemma_distinct_within(string_views(q@), sv + targets(fc.edges@));
    }
    let mut i: usize = 0;
    while i < fc.nodes.len()
        invariant
            i <= fc.nodes.len(),
            numbered_views(numbers@) == number_rest(fc.nodes@.take(i as int), walked),
            numbers@.len() <= fc.nodes@.len() + fc.edges@.len() + i,
            2 * fc.nodes@.len() + fc.edges@.len() <= usize::MAX,
        decreases fc.nodes.len() - i,
    {
        assert(fc.nodes@.take(i + 1).drop_last() =~= fc.nodes@.take(i as int));
        let n = &fc.nodes[i];
        if n.shape != Shape::Stadium && !has_number(&numbers, n.id.as_str()) {
            push_number(&mut numbers, &n.id);
        }
        i += 1;
    }
    assert(fc.nodes@.take(fc.nodes.len() as int) =~= fc.nodes@);
    numbers
}

} // verus!
