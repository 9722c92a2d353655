//! Layer ranks for the layered auto-layout: every node starts at rank 0 and
//! each edge pushes its target to one past its source, pass after pass over
//! the edges in order, for at most as many passes as there are nodes. Nodes
//! sharing an id share the rank of the first of them.

use vstd::prelude::*;

use super::{find_node, first_index, lemma_first_index, node_ids, Edge, Flowchart};

verus! {

/// One edge relaxed: the target moves to one past the source when behind it.
pub open spec fn relax_one(ids: Seq<Seq<char>>, e: Edge, r: Seq<int>) -> Seq<int> {
    match (first_index(ids, e.from@), first_index(ids, e.to@)) {
        (Some(i), Some(j)) => if r[j] < r[i] + 1 {
            r.update(j, r[i] + 1)
        } else {
            r
        },
        _ => r,
    }
}

/// One pass over the edges, in order.
pub open spec fn relax_edges(ids: Seq<Seq<char>>, edges: Seq<Edge>, r: Seq<int>) -> Seq<int>
    decreases edges.len(),
{
    if edges.len() == 0 {
        r
    } else {
        relax_one(ids, edges.last(), relax_edges(ids, edges.drop_last(), r))
    }
}

/// `t` passes over the edges.
pub open spec fn passes(ids: Seq<Seq<char>>, edges: Seq<Edge>, r: Seq<int>, t: nat) -> Seq<int>
    decreases t,
{
    if t == 0 {
        r
    } else {
        relax_edges(ids, edges, passes(ids, edges, r, (t - 1) as nat))
    }
}

/// The rank held at each node position (only first occurrences of an id are
/// read).
pub open spec fn rank_table(fc: Flowchart) -> Seq<int> {
    let n = fc.nodes@.len();
    passes(node_ids(fc.nodes@), fc.edges@, Seq::new(n, |i: int| 0int), n)
}

/// The rank of the node at position `p`.
pub open spec fn rank_of(fc: Flowchart, p: int) -> int {
    rank_table(fc)[first_index(node_ids(fc.nodes@), fc.nodes@[p].id@)->0]
}

proof fn lemma_relax_len(ids: Seq<Seq<char>>, edges: Seq<Edge>, r: Seq<int>)
    requires
        r.len() == ids.len(),
    ensures
        relax_edges(ids, edges, r).len() == ids.len(),
    decreases edges.len(),
{
    if edges.len() > 0 {
        lemma_relax_len(ids, edges.drop_last(), r);
        let r1 = relax_edges(ids, edges.drop_last(), r);
        let e = edges.last();
        lemma_first_index(ids, e.from@);
        lemma_first_index(ids, e.to@);
    }
}

proof fn lemma_passes_len(ids: Seq<Seq<char>>, edges: Seq<Edge>, r: Seq<int>, t: nat)
    requires
        r.len() == ids.len(),
    ensures
        passes(ids, edges, r, t).len() == ids.len(),
    decreases t,
{
    if t > 0 {
        lemma_passes_len(ids, edges, r, (t - 1) as nat);
        lemma_relax_len(ids, edges, passes(ids, edges, r, (t - 1) as nat));
    }
}

/// Once a pass changes nothing, further passes change nothing.
proof fn lemma_passes_stable(ids: Seq<Seq<char>>, edges: Seq<Edge>, r: Seq<int>, t: nat, m: nat)
    requires
        relax_edges(ids, edges, passes(ids, edges, r, t)) == passes(ids, edges, r, t),
    ensures
        passes(ids, edges, r, t + m) == passes(ids, edges, r, t),
    decreases m,
{
    if m > 0 {
        lemma_passes_stable(ids, edges, r, t, (m - 1) as nat);
        assert(passes(ids, edges, r, t + m) == relax_edges(ids, edges, passes(ids, edges, r, (t + m - 1) as nat)));
    }
}

/// Ranks of the nodes, in node order (see [`rank_of`]).
pub fn rank_nodes(fc: &Flowchart) -> (r: Vec<usize>)
    requires
        fc.nodes@.len() * fc.edges@.len() <= usize::MAX,
    ensures
        r@.len() == fc.nodes@.len(),
        forall|p: int| 0 <= p < fc.nodes@.len() ==> r@[p] == rank_of(*fc, p),
{
    let n = fc.nodes.len();
    let m = fc.edges.len();
    let ghost ids = node_ids(fc.nodes@);
    let ghost edges = fc.edges@;
    let ghost init = Seq::new(n as nat, |i: int| 0int);
    let mut rank: Vec<usize> = Vec::new();
    let mut i: usize = 0;
    while i < n
        invariant
            i <= n,
            n == fc.nodes@.len(),
            rank@.len() == i,
            forall|k: int| 0 <= k < i ==> rank@[k] == 0,
        decreases n - i,
    {
        rank.push(0);
        i += 1;
    }
    assert(rank@.map_values(|x: usize| x as int) =~= init);
    proof {
        lemma_passes_len(ids, edges, init, 0);
    }
    let mut t: usize = 0;
    let mut done = false;
    while t < n && !done
        invariant
            n == fc.nodes@.len(),
            m == fc.edges@.len(),
            n * m <= usize::MAX,
            ids == node_ids(fc.nodes@),
            edges == fc.edges@,
            ids.len() == n,
            init == Seq::new(n as nat, |i: int| 0int),
            t <= n,
            rank@.len() == n,
            forall|k: int| 0 <= k < n ==> rank@[k] <= t * m,
            rank@.map_values(|x: usize| x as int) == passes(ids, edges, init, t as nat),
            done ==> relax_edges(ids, edges, passes(ids, edges, init, t as nat)) == passes(
                ids,
                edges,
                init,
                t as nat,
            ),
        decreases n - t + (if done { 0int } else { 1int }),
    {
        let ghost before = rank@.map_values(|x: usize| x as int);
        let mut changed = false;
        let mut k: usize = 0;
        while k < m
            invariant
                n == fc.nodes@.len(),
                m == fc.edges@.len(),
                n * m <= usize::MAX,
                ids == node_ids(fc.nodes@),
                edges == fc.edges@,
                ids.len() == n,
                t < n,
                k <= m,
                rank@.len() == n,
                forall|q: int| 0 <= q < n ==> rank@[q] <= t * m + k,
                before.len() == n,
                forall|q: int| 0 <= q < n ==> before[q] <= t * m,
                rank@.map_values(|x: usize| x as int) == relax_edges(ids, edges.take(k as int), before),
                !changed ==> rank@.map_values(|x: usize| x as int) == before,
            decreases m - k,
        {
            proof {
                assert(edges.take(k + 1).drop_last() =~= edges.take(k as int));
                assert(edges.take(k + 1).last() == edges[k as int]);
                assert(t * m + k + 1 <= (t + 1) * m) by (nonlinear_arith)
                    requires
                        k < m,
                ;
                assert((t + 1) * m <= n * m) by (nonlinear_arith)
                    requires
                        t < n,
                ;
            }
            let e = &fc.edges[k];
            let fi = find_node(&fc.nodes, e.from.as_str());
            let ti = find_node(&fc.nodes, e.to.as_str());
            let ghost cur = rank@.map_values(|x: usize| x as int);
            if let (Some(a), Some(b)) = (fi, ti) {
                if rank[b] < rank[a] + 1 {
                    let v = rank[a] + 1;
                    rank.set(b, v);
                    changed = true;
                    assert(rank@.map_values(|x: usize| x as int) =~= cur.update(b as int, cur[a as int] + 1));
                }
            }
            k += 1;
        }
        assert(edges.take(m as int) =~= edges);
        proof {
            assert(passes(ids, edges, init, (t + 1) as nat) == relax_edges(ids, edges, passes(ids, edges, init, t as nat)));
            assert((t + 1) * m == t * m + m) by (nonlinear_arith);
        }
        if !changed {
            assert forall|q: int| 0 <= q < n implies rank@[q] <= t * m by {
                assert(rank@.map_values(|x: usize| x as int)[q] == before[q]);
            }
            done = true;
        } else {
            t += 1;
        }
    }
    proof {
        let tt = t as nat;
        if t < n {
            lemma_passes_stable(ids, edges, init, tt, (n - t) as nat);
        }
        assert(passes(ids, edges, init, n as nat) == rank@.map_values(|x: usize| x as int));
    }
    let mut out: Vec<usize> = Vec::new();
    let mut p: usize = 0;
    while p < n
        invariant
            n == fc.nodes@.len(),
            ids == node_ids(fc.nodes@),
            ids.len() == n,
            p <= n,
            rank@.len() == n,
            rank@.map_values(|x: usize| x as int) == rank_table(*fc),
            out@.len() == p,
            forall|q: int| 0 <= q < p ==> out@[q] == rank_of(*fc, q),
        decreases n - p,
    {
        let j = find_node(&fc.nodes, fc.nodes[p].id.as_str());
        proof {
            lemma_first_index(ids, fc.nodes@[p as int].id@);
            assert(ids[p as int] == fc.nodes@[p as int].id@);
        }
        let j = match j {
            Some(j) => j,
            None => p,
        };
        out.push(rank[j]);
        p += 1;
    }
    out
}

} // verus!
