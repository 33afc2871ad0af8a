//! Paths along dependency edges, and sets of entities that are closed under
//! them. An edge `(a, b)` runs from `a` to `b`.

use vstd::prelude::*;

verus! {

/// There is a path of `steps` edges from `from` to `to`.
pub open spec fn walk<V>(edges: Set<(V, V)>, from: V, to: V, steps: nat) -> bool
    decreases steps,
{
    if steps == 0 {
        from == to
    } else {
        exists|mid: V|
            walk(edges, from, mid, (steps - 1) as nat) && #[trigger] edges.contains((mid, to))
    }
}

/// There is a path from `from` to `to`; every vertex reaches itself.
pub open spec fn reachable<V>(edges: Set<(V, V)>, from: V, to: V) -> bool {
    exists|steps: nat| walk(edges, from, to, steps)
}

/// What `from` reaches, itself included.
pub open spec fn downstream<V>(edges: Set<(V, V)>, from: V) -> Set<V> {
    Set::new(|to: V| reachable(edges, from, to))
}

/// `marked` holds, with each of its vertices, what an edge leads to from it.
pub open spec fn closed<V>(edges: Set<(V, V)>, marked: Set<V>) -> bool {
    forall|a: V, b: V| marked.contains(a) && #[trigger] edges.contains((a, b)) ==> marked.contains(b)
}

/// `rank` rises along every edge.
pub open spec fn ranks<V>(edges: Set<(V, V)>, rank: spec_fn(V) -> nat) -> bool {
    forall|a: V, b: V| #[trigger] edges.contains((a, b)) ==> rank(a) < rank(b)
}

/// No path along the edges comes back to where it started: the vertices can
/// be ranked so that the rank rises along every edge.
pub open spec fn acyclic<V>(edges: Set<(V, V)>) -> bool {
    exists|rank: spec_fn(V) -> nat| ranks(edges, rank)
}

/// Every vertex reaches itself.
pub proof fn lemma_reachable_self<V>(edges: Set<(V, V)>, a: V)
    ensures
        reachable(edges, a, a),
{
    assert(walk(edges, a, a, 0));
}

/// A path goes on along one more edge.
pub proof fn lemma_reachable_step<V>(edges: Set<(V, V)>, a: V, b: V, c: V)
    requires
        reachable(edges, a, b),
        edges.contains((b, c)),
    ensures
        reachable(edges, a, c),
{
    let steps = choose|steps: nat| walk(edges, a, b, steps);
    assert(walk(edges, a, b, ((steps + 1) - 1) as nat));
    assert(walk(edges, a, c, steps + 1));
}

/// A closed set holds whatever one of its vertices reaches by a path of
/// `steps` edges.
pub proof fn lemma_closed_holds_walk<V>(edges: Set<(V, V)>, marked: Set<V>, a: V, b: V, steps: nat)
    requires
        closed(edges, marked),
        marked.contains(a),
        walk(edges, a, b, steps),
    ensures
        marked.contains(b),
    decreases steps,
{
    if steps > 0 {
        let mid = choose|mid: V|
            walk(edges, a, mid, (steps - 1) as nat) && #[trigger] edges.contains((mid, b));
        lemma_closed_holds_walk(edges, marked, a, mid, (steps - 1) as nat);
    }
}

/// A closed set holds whatever one of its vertices reaches.
pub proof fn lemma_closed_holds_reachable<V>(edges: Set<(V, V)>, marked: Set<V>, a: V, b: V)
    requires
        closed(edges, marked),
        marked.contains(a),
        reachable(edges, a, b),
    ensures
        marked.contains(b),
{
    let steps = choose|steps: nat| walk(edges, a, b, steps);
    lemma_closed_holds_walk(edges, marked, a, b, steps);
}

/// What a vertex reaches is closed.
pub proof fn lemma_downstream_closed<V>(edges: Set<(V, V)>, from: V)
    ensures
        closed(edges, downstream(edges, from)),
        downstream(edges, from).contains(from),
{
    lemma_reachable_self(edges, from);
    assert forall|a: V, b: V|
        downstream(edges, from).contains(a) && #[trigger] edges.contains((a, b)) implies downstream(
        edges,
        from,
    ).contains(b) by {
        lemma_reachable_step(edges, from, a, b);
    }
}

/// A vertex without an edge from it reaches itself alone.
pub proof fn lemma_sink_reaches_itself<V>(edges: Set<(V, V)>, from: V, to: V, steps: nat)
    requires
        forall|b: V| !edges.contains((from, b)),
        walk(edges, from, to, steps),
    ensures
        to == from,
    decreases steps,
{
    if steps > 0 {
        let mid = choose|mid: V|
            walk(edges, from, mid, (steps - 1) as nat) && #[trigger] edges.contains((mid, to));
        lemma_sink_reaches_itself(edges, from, mid, (steps - 1) as nat);
    }
}

/// What a vertex without an edge from it reaches is the vertex alone.
pub proof fn lemma_downstream_of_sink<V>(edges: Set<(V, V)>, from: V)
    requires
        forall|b: V| !edges.contains((from, b)),
    ensures
        downstream(edges, from) == set![from],
{
    lemma_reachable_self(edges, from);
    assert forall|to: V| downstream(edges, from).contains(to) implies to == from by {
        let steps = choose|steps: nat| walk(edges, from, to, steps);
        lemma_sink_reaches_itself(edges, from, to, steps);
    }
    assert(downstream(edges, from) =~= set![from]);
}

/// A closed set that holds `from` holds what `from` reaches; and what `from`
/// reaches is the least such set.
pub proof fn lemma_downstream_least<V>(edges: Set<(V, V)>, marked: Set<V>, from: V)
    requires
        closed(edges, marked),
        marked.contains(from),
    ensures
        downstream(edges, from).subset_of(marked),
{
    assert forall|b: V| downstream(edges, from).contains(b) implies marked.contains(b) by {
        lemma_closed_holds_reachable(edges, marked, from, b);
    }
}

/// The ranks of `sources`, added up.
pub open spec fn ranks_sum<V>(rank: spec_fn(V) -> nat, sources: Seq<V>) -> nat
    decreases sources.len(),
{
    if sources.len() == 0 {
        0
    } else {
        ranks_sum(rank, sources.drop_last()) + rank(sources.last())
    }
}

/// No rank is above the sum of the ranks.
pub proof fn lemma_ranks_sum_bounds<V>(rank: spec_fn(V) -> nat, sources: Seq<V>, i: int)
    requires
        0 <= i < sources.len(),
    ensures
        rank(sources[i]) <= ranks_sum(rank, sources),
    decreases sources.len(),
{
    if i < sources.len() - 1 {
        lemma_ranks_sum_bounds(rank, sources.drop_last(), i);
        assert(sources.drop_last()[i] == sources[i]);
    }
}

/// A graph without a cycle has none after a vertex came that no edge leaves,
/// with edges into it from some of `sources`.
pub proof fn lemma_acyclic_with_sink<V>(
    before: Set<(V, V)>,
    after: Set<(V, V)>,
    sink: V,
    sources: Seq<V>,
)
    requires
        acyclic(before),
        forall|a: V, b: V|
            #[trigger] after.contains((a, b)) ==> before.contains((a, b)) || (b == sink
                && sources.contains(a)),
        forall|a: V, b: V| #[trigger] before.contains((a, b)) ==> a != sink && b != sink,
        !sources.contains(sink),
    ensures
        acyclic(after),
{
    let rank = choose|rank: spec_fn(V) -> nat| ranks(before, rank);
    let top = ranks_sum(rank, sources) + 1;
    let lifted = |x: V| if x == sink { top } else { rank(x) };
    assert forall|a: V, b: V| #[trigger] after.contains((a, b)) implies lifted(a) < lifted(b) by {
        if before.contains((a, b)) {
            assert(rank(a) < rank(b));
        } else {
            let i = choose|i: int| 0 <= i < sources.len() && sources[i] == a;
            lemma_ranks_sum_bounds(rank, sources, i);
        }
    }
    assert(ranks(after, lifted));
}

/// A graph without edges has no cycle.
pub proof fn lemma_acyclic_empty<V>(edges: Set<(V, V)>)
    requires
        forall|a: V, b: V| !edges.contains((a, b)),
    ensures
        acyclic(edges),
{
    let flat = |x: V| 0nat;
    assert(ranks(edges, flat));
}

/// In an order in which every vertex comes after the sources of the edges
/// into it, a vertex comes after whatever reaches it: what reaches the vertex
/// at `place` stands at or before `place`, and before it where the path has
/// an edge.
pub proof fn lemma_order_follows_walks<V>(
    edges: Set<(V, V)>,
    order: Seq<V>,
    from: V,
    place: int,
    steps: nat,
)
    requires
        0 <= place < order.len(),
        walk(edges, from, order[place], steps),
        forall|k: int, p: V|
            0 <= k < order.len() && #[trigger] edges.contains((p, order[k])) ==> exists|i: int|
                0 <= i < k && #[trigger] order[i] == p,
    ensures
        exists|i: int| 0 <= i <= place && #[trigger] order[i] == from && (steps > 0 ==> i < place),
    decreases steps,
{
    if steps == 0 {
        assert(order[place] == from);
    } else {
        let mid = choose|mid: V|
            walk(edges, from, mid, (steps - 1) as nat) && #[trigger] edges.contains(
                (mid, order[place]),
            );
        let k = choose|k: int| 0 <= k < place && #[trigger] order[k] == mid;
        lemma_order_follows_walks(edges, order, from, k, (steps - 1) as nat);
        let i = choose|i: int|
            0 <= i <= k && #[trigger] order[i] == from && ((steps - 1) as nat > 0 ==> i < k);
        assert(0 <= i <= place && order[i] == from && i < place);
    }
}

} // verus!
