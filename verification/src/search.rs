//! The state of a depth-first search through a graph given by its adjacency
//! lists, and what each step of the search keeps true.

use crate::reach::{
    closed_under_edges, has_edge, lemma_closed_set_holds_reachable, lemma_edge_reaches,
    lemma_reaches_transitive, reaches, targets_in_range,
};
use vstd::prelude::*;

verus! {

/// The identifiers below `n`.
pub open spec fn ids_below(n: nat) -> Set<u32>
    decreases n,
{
    if n == 0 {
        Set::empty()
    } else {
        ids_below((n - 1) as nat).insert((n - 1) as u32)
    }
}

/// The identifiers below `n` are finitely many, and no others are among
/// them.
pub proof fn lemma_ids_below(n: nat)
    requires
        n <= u32::MAX + 1,
    ensures
        ids_below(n).finite(),
        forall|v: u32| ids_below(n).contains(v) <==> (v as nat) < n,
    decreases n,
{
    if n > 0 {
        lemma_ids_below((n - 1) as nat);
    }
}

/// A search from `from` for `target` that has not found it yet.
///
/// `visited` holds the nodes seen so far, `stack` those among them whose
/// edges are still to be followed, and `unvisited` at least the nodes not
/// seen. `current`, if there is one, is the node whose edges are being
/// followed, with the number of its edges already followed.
pub open spec fn searching(
    adj: Seq<Seq<int>>,
    from: int,
    target: int,
    visited: Set<u32>,
    stack: Seq<u32>,
    unvisited: Set<u32>,
    current: Option<(u32, int)>,
) -> bool {
    &&& adj.len() <= u32::MAX + 1
    &&& targets_in_range(adj)
    &&& forall|v: u32| #[trigger]
        visited.contains(v) ==> (v as int) < adj.len() && v as int != target && reaches(
            adj,
            from,
            v as int,
        )
    &&& forall|k: int| 0 <= k < stack.len() ==> visited.contains(#[trigger] stack[k])
    &&& forall|v: u32, b: int|
        visited.contains(v) && !stack.contains(v) && !(current is Some && current.unwrap().0 == v)
            && #[trigger] has_edge(adj, v as int, b) ==> visited.contains(b as u32)
    &&& current matches Some(at) ==> {
        &&& visited.contains(at.0)
        &&& 0 <= at.1 <= adj[at.0 as int].len()
        &&& forall|i: int| 0 <= i < at.1 ==> visited.contains(#[trigger] adj[at.0 as int][i] as u32)
    }
    &&& unvisited.finite()
    &&& forall|v: u32| (v as int) < adj.len() && !visited.contains(v) ==> unvisited.contains(v)
}

/// The search begins with its starting node seen and on the stack.
pub proof fn lemma_search_begins(adj: Seq<Seq<int>>, from: u32, target: int)
    requires
        adj.len() <= u32::MAX + 1,
        targets_in_range(adj),
        (from as int) < adj.len(),
        from as int != target,
    ensures
        searching(
            adj,
            from as int,
            target,
            Set::<u32>::empty().insert(from),
            seq![from],
            ids_below(adj.len()),
            None,
        ),
{
    let visited = Set::<u32>::empty().insert(from);
    let stack = seq![from];
    lemma_ids_below(adj.len());
    crate::reach::lemma_reaches_self(adj, from as int);
    assert(stack[0] == from);
    assert(stack.contains(from));
}

/// Taking the top of the stack as the current node.
pub proof fn lemma_search_pops(
    adj: Seq<Seq<int>>,
    from: int,
    target: int,
    visited: Set<u32>,
    stack: Seq<u32>,
    unvisited: Set<u32>,
)
    requires
        searching(adj, from, target, visited, stack, unvisited, None),
        stack.len() > 0,
    ensures
        searching(adj, from, target, visited, stack.drop_last(), unvisited, Some((stack.last(), 0int))),
{
    let node = stack.last();
    let rest = stack.drop_last();
    let current = Some((node, 0int));
    assert(visited.contains(stack[stack.len() - 1]));
    assert forall|k: int| 0 <= k < rest.len() implies visited.contains(#[trigger] rest[k]) by {
        assert(rest[k] == stack[k]);
    }
    assert forall|v: u32, b: int|
        visited.contains(v) && !rest.contains(v) && !(current is Some && current.unwrap().0 == v)
            && #[trigger] has_edge(adj, v as int, b) implies visited.contains(b as u32) by {
        if stack.contains(v) {
            let k = choose|k: int| 0 <= k < stack.len() && stack[k] == v;
            assert(rest[k] == v);
        }
    }
}

/// Following the next edge of the current node to a node that is not the
/// target. Where the node is new, it is seen from now on and goes on the
/// stack.
pub proof fn lemma_search_follows(
    adj: Seq<Seq<int>>,
    from: int,
    target: int,
    visited: Set<u32>,
    stack: Seq<u32>,
    unvisited: Set<u32>,
    node: u32,
    done: int,
)
    requires
        searching(adj, from, target, visited, stack, unvisited, Some((node, done))),
        done < adj[node as int].len(),
        adj[node as int][done] != target,
    ensures
        0 <= adj[node as int][done] < adj.len(),
        visited.contains(adj[node as int][done] as u32) ==> searching(
            adj,
            from,
            target,
            visited,
            stack,
            unvisited,
            Some((node, done + 1)),
        ),
        !visited.contains(adj[node as int][done] as u32) ==> unvisited.contains(
            adj[node as int][done] as u32,
        ) && searching(
            adj,
            from,
            target,
            visited.insert(adj[node as int][done] as u32),
            stack.push(adj[node as int][done] as u32),
            unvisited.remove(adj[node as int][done] as u32),
            Some((node, done + 1)),
        ),
{
    let next = adj[node as int][done];
    let next_id = next as u32;
    assert(0 <= next < adj.len());
    if !visited.contains(next_id) {
        let seen = visited.insert(next_id);
        let pending = stack.push(next_id);
        let current = Some((node, done + 1));
        assert(has_edge(adj, node as int, next));
        lemma_edge_reaches(adj, node as int, next);
        lemma_reaches_transitive(adj, from, node as int, next);
        assert(pending[stack.len() as int] == next_id);
        assert forall|k: int| 0 <= k < pending.len() implies seen.contains(#[trigger] pending[k]) by {
            if k < stack.len() {
                assert(pending[k] == stack[k]);
            }
        }
        assert forall|v: u32, b: int|
            seen.contains(v) && !pending.contains(v) && !(current is Some && current.unwrap().0 == v)
                && #[trigger] has_edge(adj, v as int, b) implies seen.contains(b as u32) by {
            if stack.contains(v) {
                let k = choose|k: int| 0 <= k < stack.len() && stack[k] == v;
                assert(pending[k] == v);
            }
        }
    }
}

/// Leaving the current node once all its edges are followed.
pub proof fn lemma_search_leaves(
    adj: Seq<Seq<int>>,
    from: int,
    target: int,
    visited: Set<u32>,
    stack: Seq<u32>,
    unvisited: Set<u32>,
    node: u32,
)
    requires
        searching(
            adj,
            from,
            target,
            visited,
            stack,
            unvisited,
            Some((node, adj[node as int].len() as int)),
        ),
    ensures
        searching(adj, from, target, visited, stack, unvisited, None),
{
    let list = adj[node as int];
    assert forall|v: u32, b: int|
        visited.contains(v) && !stack.contains(v) && #[trigger] has_edge(
            adj,
            v as int,
            b,
        ) implies visited.contains(b as u32) by {
        if v == node {
            let i = choose|i: int| 0 <= i < list.len() && list[i] == b;
            assert(visited.contains(adj[node as int][i] as u32));
        }
    }
}

/// A search that ends with an empty stack has seen every node that can be
/// reached, so the target, which it has not seen, cannot be.
pub proof fn lemma_search_ends(
    adj: Seq<Seq<int>>,
    from: int,
    target: int,
    visited: Set<u32>,
    unvisited: Set<u32>,
)
    requires
        searching(adj, from, target, visited, Seq::<u32>::empty(), unvisited, None),
        0 <= from < adj.len(),
        visited.contains(from as u32),
    ensures
        !reaches(adj, from, target),
{
    let seen = Set::new(|x: int| 0 <= x < adj.len() && visited.contains(x as u32));
    assert forall|a: int, b: int| seen.contains(a) && #[trigger] has_edge(adj, a, b) implies seen.contains(
        b,
    ) by {
        let v = a as u32;
        assert(has_edge(adj, v as int, b));
        assert(visited.contains(b as u32));
        let i = choose|i: int| 0 <= i < adj[a].len() && adj[a][i] == b;
        assert(0 <= adj[a][i] < adj.len());
    }
    assert(closed_under_edges(adj, seen));
    if reaches(adj, from, target) {
        lemma_closed_set_holds_reachable(adj, seen, from, target);
        assert(visited.contains(target as u32));
    }
}

} // verus!
