//! Walks, reachability and acyclicity in a directed graph that is given by
//! its adjacency lists: `adj[a]` lists the nodes that `a` has an edge to.

use vstd::prelude::*;

verus! {

/// There is an edge from `a` to `b`.
pub open spec fn has_edge(adj: Seq<Seq<int>>, a: int, b: int) -> bool {
    0 <= a < adj.len() && adj[a].contains(b)
}

/// `walk` is a non-empty sequence of nodes, each joined to the next by an
/// edge.
pub open spec fn is_walk(adj: Seq<Seq<int>>, walk: Seq<int>) -> bool {
    walk.len() >= 1 && forall|i: int|
        0 <= i < walk.len() - 1 ==> has_edge(adj, #[trigger] walk[i], walk[i + 1])
}

/// `walk` leads from `a` to `b`.
pub open spec fn walk_between(adj: Seq<Seq<int>>, walk: Seq<int>, a: int, b: int) -> bool {
    is_walk(adj, walk) && walk[0] == a && walk[walk.len() - 1] == b
}

/// `b` can be reached from `a` along zero or more edges.
pub open spec fn reaches(adj: Seq<Seq<int>>, a: int, b: int) -> bool {
    exists|walk: Seq<int>| walk_between(adj, walk, a, b)
}

/// No walk of one or more edges ends where it began.
pub open spec fn acyclic(adj: Seq<Seq<int>>) -> bool {
    forall|walk: Seq<int>| #[trigger]
        is_walk(adj, walk) && walk.len() >= 2 ==> walk[0] != walk[walk.len() - 1]
}

/// Every edge ends at a node of the graph.
pub open spec fn targets_in_range(adj: Seq<Seq<int>>) -> bool {
    forall|a: int, i: int|
        0 <= a < adj.len() && 0 <= i < adj[a].len() ==> 0 <= #[trigger] adj[a][i] < adj.len()
}

/// The set is closed under the edges: from a member, every edge leads to a
/// member.
pub open spec fn closed_under_edges(adj: Seq<Seq<int>>, nodes: Set<int>) -> bool {
    forall|a: int, b: int| nodes.contains(a) && #[trigger] has_edge(adj, a, b) ==> nodes.contains(b)
}

/// Every node reaches itself.
pub proof fn lemma_reaches_self(adj: Seq<Seq<int>>, a: int)
    ensures
        reaches(adj, a, a),
{
    assert(walk_between(adj, seq![a], a, a));
}

/// An edge is a walk of two nodes.
pub proof fn lemma_edge_reaches(adj: Seq<Seq<int>>, a: int, b: int)
    requires
        has_edge(adj, a, b),
    ensures
        reaches(adj, a, b),
{
    let walk = seq![a, b];
    assert(walk_between(adj, walk, a, b));
}

/// Two walks that meet in a node join into one.
pub proof fn lemma_walks_join(adj: Seq<Seq<int>>, first: Seq<int>, second: Seq<int>)
    requires
        is_walk(adj, first),
        is_walk(adj, second),
        first[first.len() - 1] == second[0],
    ensures
        is_walk(adj, first + second.skip(1)),
        (first + second.skip(1))[0] == first[0],
        (first + second.skip(1))[first.len() + second.len() - 2] == second[second.len() - 1],
        (first + second.skip(1)).len() == first.len() + second.len() - 1,
{
    let joined = first + second.skip(1);
    assert forall|i: int| 0 <= i < joined.len() - 1 implies has_edge(
        adj,
        #[trigger] joined[i],
        joined[i + 1],
    ) by {
        if i < first.len() - 1 {
            assert(has_edge(adj, first[i], first[i + 1]));
        } else {
            let j = i - (first.len() - 1);
            assert(has_edge(adj, second[j], second[j + 1]));
            assert(joined[i + 1] == second[j + 1]);
            if j == 0 {
                assert(joined[i] == first[first.len() - 1]);
            } else {
                assert(joined[i] == second[j]);
            }
        }
    }
}

/// Reachability is transitive.
pub proof fn lemma_reaches_transitive(adj: Seq<Seq<int>>, a: int, b: int, c: int)
    requires
        reaches(adj, a, b),
        reaches(adj, b, c),
    ensures
        reaches(adj, a, c),
{
    let first = choose|walk: Seq<int>| walk_between(adj, walk, a, b);
    let second = choose|walk: Seq<int>| walk_between(adj, walk, b, c);
    lemma_walks_join(adj, first, second);
    assert(walk_between(adj, first + second.skip(1), a, c));
}

/// A set that is closed under the edges holds every node along a walk that
/// starts inside it.
pub proof fn lemma_closed_set_holds_walk(adj: Seq<Seq<int>>, nodes: Set<int>, walk: Seq<int>, k: int)
    requires
        closed_under_edges(adj, nodes),
        is_walk(adj, walk),
        nodes.contains(walk[0]),
        0 <= k < walk.len(),
    ensures
        nodes.contains(walk[k]),
    decreases k,
{
    if k > 0 {
        lemma_closed_set_holds_walk(adj, nodes, walk, k - 1);
        assert(has_edge(adj, walk[k - 1], walk[k - 1 + 1]));
    }
}

/// A set that is closed under the edges holds whatever its members reach.
pub proof fn lemma_closed_set_holds_reachable(adj: Seq<Seq<int>>, nodes: Set<int>, a: int, b: int)
    requires
        closed_under_edges(adj, nodes),
        nodes.contains(a),
        reaches(adj, a, b),
    ensures
        nodes.contains(b),
{
    let walk = choose|walk: Seq<int>| walk_between(adj, walk, a, b);
    lemma_closed_set_holds_walk(adj, nodes, walk, walk.len() - 1);
}

/// The graph with one more edge, from `from` to `to`.
pub open spec fn with_edge(adj: Seq<Seq<int>>, from: int, to: int) -> Seq<Seq<int>>
    recommends
        0 <= from < adj.len(),
{
    adj.update(from, adj[from].push(to))
}

/// The graph with one more node, which has no edges.
pub open spec fn with_node(adj: Seq<Seq<int>>) -> Seq<Seq<int>> {
    adj.push(Seq::empty())
}

/// The graph with every target moved up by `amount`.
pub open spec fn shifted(adj: Seq<Seq<int>>, amount: int) -> Seq<Seq<int>> {
    Seq::new(adj.len(), |a: int| Seq::new(adj[a].len(), |i: int| adj[a][i] + amount))
}

/// The two graphs side by side: the nodes of `left` keep their numbers, and
/// those of `right` follow them.
pub open spec fn disjoint_union(left: Seq<Seq<int>>, right: Seq<Seq<int>>) -> Seq<Seq<int>> {
    left + shifted(right, left.len() as int)
}

/// An edge of the graph with one more edge is the new edge or an old one.
pub proof fn lemma_with_edge_edges(adj: Seq<Seq<int>>, from: int, to: int, a: int, b: int)
    requires
        0 <= from < adj.len(),
    ensures
        has_edge(with_edge(adj, from, to), a, b) <==> has_edge(adj, a, b) || (a == from && b == to),
{
    let wider = with_edge(adj, from, to);
    let old_list = adj[from];
    let new_list = old_list.push(to);
    if has_edge(wider, a, b) && a == from {
        let i = choose|i: int| 0 <= i < new_list.len() && new_list[i] == b;
        if i < old_list.len() {
            assert(old_list[i] == b);
        }
    }
    if has_edge(adj, a, b) && a == from {
        let i = choose|i: int| 0 <= i < old_list.len() && old_list[i] == b;
        assert(new_list[i] == b);
    }
    if a == from && b == to {
        assert(new_list[old_list.len() as int] == to);
    }
}

/// A walk in the graph with one more edge either is matched by a walk of
/// the old graph, or passes the new edge: then the old graph leads from the
/// walk's start to the edge's source and from the edge's target to the
/// walk's end.
pub proof fn lemma_with_edge_walk(adj: Seq<Seq<int>>, from: int, to: int, walk: Seq<int>)
    requires
        0 <= from < adj.len(),
        is_walk(with_edge(adj, from, to), walk),
        !reaches(adj, to, from),
    ensures
        reaches(adj, walk[0], walk[walk.len() - 1]) || (reaches(adj, walk[0], from) && reaches(
            adj,
            to,
            walk[walk.len() - 1],
        )),
    decreases walk.len(),
{
    let wider = with_edge(adj, from, to);
    let a = walk[0];
    let b = walk[walk.len() - 1];
    if walk.len() == 1 {
        lemma_reaches_self(adj, a);
    } else {
        let before = walk.drop_last();
        let c = before[before.len() - 1];
        assert forall|i: int| 0 <= i < before.len() - 1 implies has_edge(
            wider,
            #[trigger] before[i],
            before[i + 1],
        ) by {
            assert(has_edge(wider, walk[i], walk[i + 1]));
        }
        lemma_with_edge_walk(adj, from, to, before);
        assert(has_edge(wider, walk[walk.len() - 2], walk[walk.len() - 2 + 1]));
        lemma_with_edge_edges(adj, from, to, c, b);
        if has_edge(adj, c, b) {
            lemma_edge_reaches(adj, c, b);
            if reaches(adj, a, c) {
                lemma_reaches_transitive(adj, a, c, b);
            } else {
                lemma_reaches_transitive(adj, to, c, b);
            }
        } else {
            lemma_reaches_self(adj, to);
        }
    }
}

/// An edge from `from` to `to` closes no cycle where `to` did not reach
/// `from` before.
pub proof fn lemma_with_edge_acyclic(adj: Seq<Seq<int>>, from: int, to: int)
    requires
        0 <= from < adj.len(),
        acyclic(adj),
        !reaches(adj, to, from),
    ensures
        acyclic(with_edge(adj, from, to)),
{
    let wider = with_edge(adj, from, to);
    assert forall|walk: Seq<int>| #[trigger] is_walk(wider, walk) && walk.len() >= 2 implies walk[0]
        != walk[walk.len() - 1] by {
        if walk[0] == walk[walk.len() - 1] {
            let a = walk[0];
            let next = walk[1];
            let rest = walk.skip(1);
            assert forall|i: int| 0 <= i < rest.len() - 1 implies has_edge(
                wider,
                #[trigger] rest[i],
                rest[i + 1],
            ) by {
                assert(has_edge(wider, walk[i + 1], walk[i + 1 + 1]));
            }
            lemma_with_edge_walk(adj, from, to, rest);
            assert(has_edge(wider, walk[0], walk[0int + 1]));
            lemma_with_edge_edges(adj, from, to, a, next);
            if has_edge(adj, a, next) {
                lemma_edge_reaches(adj, a, next);
                if reaches(adj, next, a) {
                    let back = choose|back: Seq<int>| walk_between(adj, back, next, a);
                    let step = seq![a, next];
                    assert(is_walk(adj, step));
                    lemma_walks_join(adj, step, back);
                    let round = step + back.skip(1);
                    assert(is_walk(adj, round) && round.len() >= 2);
                    assert(false);
                } else {
                    lemma_reaches_transitive(adj, to, a, next);
                    lemma_reaches_transitive(adj, to, next, from);
                }
            }
        }
    }
}

/// An edge from `from` to `to` closes a cycle where `to` reached `from`
/// before: the walk from `to` to `from`, then the new edge, ends where it
/// began.
pub proof fn lemma_with_edge_cyclic(adj: Seq<Seq<int>>, from: int, to: int)
    requires
        0 <= from < adj.len(),
        reaches(adj, to, from),
    ensures
        !acyclic(with_edge(adj, from, to)),
{
    let wider = with_edge(adj, from, to);
    let back = choose|back: Seq<int>| walk_between(adj, back, to, from);
    assert forall|i: int| 0 <= i < back.len() - 1 implies has_edge(
        wider,
        #[trigger] back[i],
        back[i + 1],
    ) by {
        assert(has_edge(adj, back[i], back[i + 1]));
        lemma_with_edge_edges(adj, from, to, back[i], back[i + 1]);
    }
    lemma_with_edge_edges(adj, from, to, from, to);
    let step = seq![from, to];
    assert(is_walk(wider, step));
    lemma_walks_join(wider, step, back);
    let round = step + back.skip(1);
    assert(is_walk(wider, round) && round.len() >= 2 && round[0] == round[round.len() - 1]);
}

/// In an acyclic graph, a new edge from `from` to `to` closes a cycle
/// exactly when `from` could be reached from `to` before; a loop at one
/// node always does.
pub proof fn lemma_edge_closes_cycle(adj: Seq<Seq<int>>, from: int, to: int)
    requires
        0 <= from < adj.len(),
        acyclic(adj),
    ensures
        acyclic(with_edge(adj, from, to)) <==> !reaches(adj, to, from),
        from == to ==> !acyclic(with_edge(adj, from, to)),
{
    if reaches(adj, to, from) {
        lemma_with_edge_cyclic(adj, from, to);
    } else {
        lemma_with_edge_acyclic(adj, from, to);
    }
    if from == to {
        lemma_reaches_self(adj, from);
    }
}

/// The graph after the edges of a list are added one by one, each given
/// as its source and its target.
pub open spec fn with_edges(adj: Seq<Seq<int>>, edges: Seq<(int, int)>) -> Seq<Seq<int>>
    decreases edges.len(),
{
    if edges.len() == 0 {
        adj
    } else {
        with_edge(with_edges(adj, edges.drop_last()), edges.last().0, edges.last().1)
    }
}

/// None of the edges, added one by one, closes a cycle: each starts at a
/// node of the graph, and its source cannot be reached from its target in
/// the graph as the edges before it have left it.
pub open spec fn closes_no_cycle(adj: Seq<Seq<int>>, edges: Seq<(int, int)>) -> bool
    decreases edges.len(),
{
    edges.len() == 0 || {
        &&& closes_no_cycle(adj, edges.drop_last())
        &&& 0 <= edges.last().0 < adj.len()
        &&& !reaches(with_edges(adj, edges.drop_last()), edges.last().1, edges.last().0)
    }
}

/// An acyclic graph stays acyclic, and keeps its nodes, through any list of
/// edges of which none closes a cycle.
pub proof fn lemma_edges_keep_acyclic(adj: Seq<Seq<int>>, edges: Seq<(int, int)>)
    requires
        acyclic(adj),
        closes_no_cycle(adj, edges),
    ensures
        acyclic(with_edges(adj, edges)),
        with_edges(adj, edges).len() == adj.len(),
    decreases edges.len(),
{
    if edges.len() > 0 {
        lemma_edges_keep_acyclic(adj, edges.drop_last());
        lemma_with_edge_acyclic(with_edges(adj, edges.drop_last()), edges.last().0, edges.last().1);
    }
}

/// A new node without edges closes no cycle and leaves every edge in range.
pub proof fn lemma_with_node(adj: Seq<Seq<int>>)
    requires
        acyclic(adj),
        targets_in_range(adj),
    ensures
        acyclic(with_node(adj)),
        targets_in_range(with_node(adj)),
{
    let wider = with_node(adj);
    assert forall|a: int, b: int| has_edge(wider, a, b) implies has_edge(adj, a, b) by {
        if a == adj.len() {
            assert(wider[a] =~= Seq::<int>::empty());
        }
    }
    assert forall|walk: Seq<int>| #[trigger] is_walk(wider, walk) && walk.len() >= 2 implies walk[0]
        != walk[walk.len() - 1] by {
        assert forall|i: int| 0 <= i < walk.len() - 1 implies has_edge(
            adj,
            #[trigger] walk[i],
            walk[i + 1],
        ) by {
            assert(has_edge(wider, walk[i], walk[i + 1]));
        }
        assert(is_walk(adj, walk));
    }
    assert forall|a: int, i: int| 0 <= a < wider.len() && 0 <= i < wider[a].len() implies 0
        <= #[trigger] wider[a][i] < wider.len() by {
        assert(0 <= adj[a][i] < adj.len());
    }
}

/// An edge of two graphs side by side is an edge of the left one, or an
/// edge of the right one with both ends moved up.
pub proof fn lemma_disjoint_union_edges(left: Seq<Seq<int>>, right: Seq<Seq<int>>, a: int, b: int)
    ensures
        has_edge(disjoint_union(left, right), a, b) <==> has_edge(left, a, b) || has_edge(
            right,
            a - left.len(),
            b - left.len(),
        ),
{
    let n = left.len() as int;
    let both = disjoint_union(left, right);
    if 0 <= a < n {
        assert(both[a] == left[a]);
    } else if n <= a < n + right.len() {
        let moved = both[a];
        let list = right[a - n];
        assert(moved == shifted(right, n)[a - n]);
        if moved.contains(b) {
            let i = choose|i: int| 0 <= i < moved.len() && moved[i] == b;
            assert(list[i] == b - n);
        }
        if list.contains(b - n) {
            let i = choose|i: int| 0 <= i < list.len() && list[i] == b - n;
            assert(moved[i] == b);
        }
    }
}

/// In two graphs side by side a walk never leaves the side it starts on.
proof fn lemma_disjoint_union_walk_side(
    left: Seq<Seq<int>>,
    right: Seq<Seq<int>>,
    walk: Seq<int>,
    k: int,
)
    requires
        targets_in_range(left),
        targets_in_range(right),
        is_walk(disjoint_union(left, right), walk),
        walk.len() >= 2,
        0 <= k < walk.len(),
    ensures
        0 <= walk[0] < left.len() + right.len(),
        (walk[0] < left.len()) == (walk[k] < left.len()),
        0 <= walk[k] < left.len() + right.len(),
    decreases k,
{
    let both = disjoint_union(left, right);
    assert(has_edge(both, walk[0], walk[0int + 1]));
    if k > 0 {
        lemma_disjoint_union_walk_side(left, right, walk, k - 1);
        let a = walk[k - 1];
        let b = walk[k];
        assert(has_edge(both, walk[k - 1], walk[k - 1 + 1]));
        lemma_disjoint_union_edges(left, right, a, b);
        if has_edge(left, a, b) {
            let i = choose|i: int| 0 <= i < left[a].len() && left[a][i] == b;
            assert(0 <= left[a][i] < left.len());
        } else {
            let list = right[a - left.len()];
            let i = choose|i: int| 0 <= i < list.len() && list[i] == b - left.len();
            assert(0 <= right[a - left.len()][i] < right.len());
        }
    }
}

/// Two acyclic graphs side by side form an acyclic graph, with every edge
/// in range.
pub proof fn lemma_disjoint_union(left: Seq<Seq<int>>, right: Seq<Seq<int>>)
    requires
        acyclic(left),
        acyclic(right),
        targets_in_range(left),
        targets_in_range(right),
    ensures
        acyclic(disjoint_union(left, right)),
        targets_in_range(disjoint_union(left, right)),
{
    let n = left.len() as int;
    let both = disjoint_union(left, right);
    assert forall|walk: Seq<int>| #[trigger] is_walk(both, walk) && walk.len() >= 2 implies walk[0]
        != walk[walk.len() - 1] by {
        lemma_disjoint_union_walk_side(left, right, walk, 0);
        if walk[0] < n {
            assert forall|i: int| 0 <= i < walk.len() - 1 implies has_edge(
                left,
                #[trigger] walk[i],
                walk[i + 1],
            ) by {
                lemma_disjoint_union_walk_side(left, right, walk, i);
                assert(has_edge(both, walk[i], walk[i + 1]));
                lemma_disjoint_union_edges(left, right, walk[i], walk[i + 1]);
            }
            assert(is_walk(left, walk));
        } else {
            let lower = Seq::new(walk.len(), |i: int| walk[i] - n);
            assert forall|i: int| 0 <= i < lower.len() - 1 implies has_edge(
                right,
                #[trigger] lower[i],
                lower[i + 1],
            ) by {
                lemma_disjoint_union_walk_side(left, right, walk, i);
                assert(has_edge(both, walk[i], walk[i + 1]));
                lemma_disjoint_union_edges(left, right, walk[i], walk[i + 1]);
            }
            assert(is_walk(right, lower));
            assert(lower[0] != lower[lower.len() - 1]);
        }
    }
    assert forall|a: int, i: int| 0 <= a < both.len() && 0 <= i < both[a].len() implies 0
        <= #[trigger] both[a][i] < both.len() by {
        if a < n {
            assert(0 <= left[a][i] < left.len());
        } else {
            assert(0 <= right[a - n][i] < right.len());
        }
    }
}

} // verus!
