//! Which edges of a node a traversal follows, and where they lead.
//!
//! A node has two traversals: one over the edges that are not dynamic
//! imports, one over those that are. Either follows an edge only if the
//! graph has a node for it, and keeps the order of the edges.

use vstd::prelude::*;

use crate::dependency::Dependency;
use crate::graph::ModuleGraph;
use crate::module::ModuleGraphModule;

verus! {

/// Whether the graph has a node for the edge.
pub open spec fn resolves(graph: ModuleGraph) -> spec_fn(Dependency) -> bool {
    |edge: Dependency| graph.resolve(edge@) is Some
}

/// Whether the traversal of this kind follows the edge: the edge is of
/// the kind, and the graph has a node for it.
pub open spec fn follows(graph: ModuleGraph, dynamic: bool) -> spec_fn(Dependency) -> bool {
    |edge: Dependency| edge@.is_dynamic() == dynamic && graph.resolve(edge@) is Some
}

/// The node that an edge leads to.
pub open spec fn target(graph: ModuleGraph) -> spec_fn(Dependency) -> ModuleGraphModule {
    |edge: Dependency| graph.resolve(edge@).unwrap()
}

/// The edges that the graph has a node for, in their order.
pub open spec fn resolvable(edges: Seq<Dependency>, graph: ModuleGraph) -> Seq<Dependency> {
    edges.filter(resolves(graph))
}

/// The edges that the traversal of this kind follows, in their order.
pub open spec fn followed(edges: Seq<Dependency>, graph: ModuleGraph, dynamic: bool) -> Seq<
    Dependency,
> {
    edges.filter(follows(graph, dynamic))
}

/// What the traversal of this kind finds: the node of each edge that it
/// follows, in the order of the edges.
pub open spec fn neighbors(edges: Seq<Dependency>, graph: ModuleGraph, dynamic: bool) -> Seq<
    ModuleGraphModule,
> {
    followed(edges, graph, dynamic).map_values(target(graph))
}

/// The nodes that a sequence of references points to.
pub open spec fn nodes_of(found: Seq<&ModuleGraphModule>) -> Seq<ModuleGraphModule> {
    found.map_values(|node: &ModuleGraphModule| *node)
}

/// One more edge adds its node to what a traversal finds if the traversal
/// follows the edge, and nothing if it does not.
pub proof fn lemma_neighbors_push(
    edges: Seq<Dependency>,
    edge: Dependency,
    graph: ModuleGraph,
    dynamic: bool,
)
    ensures
        neighbors(edges.push(edge), graph, dynamic) == if follows(graph, dynamic)(edge) {
            neighbors(edges, graph, dynamic).push(target(graph)(edge))
        } else {
            neighbors(edges, graph, dynamic)
        },
{
    edges.lemma_filter_push(edge, follows(graph, dynamic));
    if follows(graph, dynamic)(edge) {
        followed(edges, graph, dynamic).lemma_push_map_commute(target(graph), edge);
    }
}

/// The places of the edges that the traversal of this kind follows, from
/// the first edge to the last.
pub closed spec fn places(edges: Seq<Dependency>, graph: ModuleGraph, dynamic: bool) -> Seq<int>
    decreases edges.len(),
{
    if edges.len() == 0 {
        Seq::empty()
    } else {
        let before = places(edges.drop_last(), graph, dynamic);
        if follows(graph, dynamic)(edges.last()) {
            before.push(edges.len() - 1)
        } else {
            before
        }
    }
}

/// The nodes of the edges that the graph has a node for, in the order of
/// the edges.
pub open spec fn reachable(edges: Seq<Dependency>, graph: ModuleGraph) -> Seq<ModuleGraphModule> {
    resolvable(edges, graph).map_values(target(graph))
}

/// The two traversals part the edges that lead somewhere: no edge is
/// followed by both, and the edges that either follows are, taken together,
/// the edges that the graph has a node for, each as often as it occurs. So
/// the two results together hold the node of each such edge, once for each
/// time that an edge leads to it.
///
/// This is said of edges, not of nodes: where a node is imported both ways,
/// by two edges, both traversals find it.
pub proof fn lemma_traversals_part_the_edges(edges: Seq<Dependency>, graph: ModuleGraph)
    ensures
        forall|edge: Dependency|
            !(followed(edges, graph, false).contains(edge) && #[trigger] followed(
                edges,
                graph,
                true,
            ).contains(edge)),
        followed(edges, graph, false).to_multiset().add(
            followed(edges, graph, true).to_multiset(),
        ) == resolvable(edges, graph).to_multiset(),
        neighbors(edges, graph, false).to_multiset().add(
            neighbors(edges, graph, true).to_multiset(),
        ) == reachable(edges, graph).to_multiset(),
        neighbors(edges, graph, false).len() + neighbors(edges, graph, true).len() == resolvable(
            edges,
            graph,
        ).len(),
    decreases edges.len(),
{
    broadcast use vstd::seq_lib::group_to_multiset_ensures;

    let kept = followed(edges, graph, false);
    let later = followed(edges, graph, true);
    assert forall|edge: Dependency| !(kept.contains(edge) && #[trigger] later.contains(edge)) by {
        if kept.contains(edge) && later.contains(edge) {
            let i = choose|i: int| 0 <= i < kept.len() && kept[i] == edge;
            edges.lemma_filter_pred(follows(graph, false), i);
            let j = choose|j: int| 0 <= j < later.len() && later[j] == edge;
            edges.lemma_filter_pred(follows(graph, true), j);
        }
    }
    if edges.len() == 0 {
        reveal(Seq::filter);
        assert(neighbors(edges, graph, false).to_multiset().add(
            neighbors(edges, graph, true).to_multiset(),
        ) =~= reachable(edges, graph).to_multiset());
    } else {
        let rest = edges.drop_last();
        let last = edges.last();
        assert(edges =~= rest.push(last));
        lemma_traversals_part_the_edges(rest, graph);
        rest.lemma_filter_push(last, follows(graph, false));
        rest.lemma_filter_push(last, follows(graph, true));
        rest.lemma_filter_push(last, resolves(graph));
        assert(kept.to_multiset().add(later.to_multiset()) =~= resolvable(
            edges,
            graph,
        ).to_multiset());
        lemma_neighbors_push(rest, last, graph, false);
        lemma_neighbors_push(rest, last, graph, true);
        if resolves(graph)(last) {
            resolvable(rest, graph).lemma_push_map_commute(target(graph), last);
        }
        assert(neighbors(edges, graph, false).to_multiset().add(
            neighbors(edges, graph, true).to_multiset(),
        ) =~= reachable(edges, graph).to_multiset());
    }
}

/// Where no node is imported both ways, no node is found by both
/// traversals.
pub proof fn lemma_neighbors_disjoint(edges: Seq<Dependency>, graph: ModuleGraph)
    requires
        forall|i: int, j: int|
            #![trigger edges[i], edges[j]]
            0 <= i < edges.len() && 0 <= j < edges.len() && follows(graph, false)(edges[i])
                && follows(graph, true)(edges[j]) ==> target(graph)(edges[i]) != target(graph)(
                edges[j],
            ),
    ensures
        forall|node: ModuleGraphModule|
            !(neighbors(edges, graph, false).contains(node) && #[trigger] neighbors(
                edges,
                graph,
                true,
            ).contains(node)),
{
    let kept = neighbors(edges, graph, false);
    let later = neighbors(edges, graph, true);
    assert forall|node: ModuleGraphModule| !(kept.contains(node) && #[trigger] later.contains(
        node,
    )) by {
        if kept.contains(node) && later.contains(node) {
            let a = choose|a: int| 0 <= a < kept.len() && kept[a] == node;
            let b = choose|b: int| 0 <= b < later.len() && later[b] == node;
            let at = lemma_order_preserved(edges, graph, false);
            let bt = lemma_order_preserved(edges, graph, true);
            assert(kept[a] == target(graph)(edges[at[a]]));
            assert(later[b] == target(graph)(edges[bt[b]]));
            assert(target(graph)(edges[at[a]]) != target(graph)(edges[bt[b]]));
        }
    }
}

/// Both traversals keep the order of the edges. The proof hands out, for
/// each node found, the place of the edge that led to it: the places rise,
/// each holds an edge that the traversal follows and that leads to the node
/// found, and no edge that the traversal follows is left out.
pub proof fn lemma_order_preserved(edges: Seq<Dependency>, graph: ModuleGraph, dynamic: bool) -> (at:
    Seq<int>)
    ensures
        at == places(edges, graph, dynamic),
        at.len() == neighbors(edges, graph, dynamic).len(),
        forall|j: int, k: int| 0 <= j < k < at.len() ==> at[j] < at[k],
        forall|k: int|
            0 <= k < at.len() ==> {
                &&& 0 <= #[trigger] at[k] < edges.len()
                &&& follows(graph, dynamic)(edges[at[k]])
                &&& followed(edges, graph, dynamic)[k] == edges[at[k]]
                &&& neighbors(edges, graph, dynamic)[k] == target(graph)(edges[at[k]])
            },
        forall|i: int|
            0 <= i < edges.len() && follows(graph, dynamic)(#[trigger] edges[i]) ==> at.contains(i),
    decreases edges.len(),
{
    let at = places(edges, graph, dynamic);
    if edges.len() == 0 {
        reveal(Seq::filter);
    } else {
        let rest = edges.drop_last();
        let last = edges.last();
        assert(edges =~= rest.push(last));
        let before = lemma_order_preserved(rest, graph, dynamic);
        rest.lemma_filter_push(last, follows(graph, dynamic));
        assert forall|i: int|
            0 <= i < edges.len() && follows(graph, dynamic)(#[trigger] edges[i]) implies at.contains(
            i,
        ) by {
            if i < rest.len() {
                assert(rest[i] == edges[i]);
                let k = choose|k: int| 0 <= k < before.len() && before[k] == i;
                assert(at[k] == i);
            } else {
                assert(at[at.len() - 1] == i);
            }
        }
    }
    at
}

/// A traversal can be made again: whatever two runs over the same edges
/// and the same graph find, they find the same nodes in the same order.
pub proof fn lemma_traversal_repeatable(
    first: Seq<&ModuleGraphModule>,
    second: Seq<&ModuleGraphModule>,
    edges: Seq<Dependency>,
    graph: ModuleGraph,
    dynamic: bool,
)
    requires
        nodes_of(first) == neighbors(edges, graph, dynamic),
        nodes_of(second) == neighbors(edges, graph, dynamic),
    ensures
        first == second,
{
    assert(first.len() == nodes_of(first).len());
    assert(second.len() == nodes_of(second).len());
    assert forall|k: int| 0 <= k < first.len() implies first[k] == second[k] by {
        assert(nodes_of(first)[k] == *first[k]);
        assert(nodes_of(second)[k] == *second[k]);
    }
    assert(first =~= second);
}

/// An edge that leads to no node is passed over by both traversals, and
/// nothing else changes by it: each finds what it would find if the edge
/// were not there.
pub proof fn lemma_unresolved_edge_omitted(
    edges: Seq<Dependency>,
    graph: ModuleGraph,
    i: int,
    dynamic: bool,
)
    requires
        0 <= i < edges.len(),
        graph.resolve(edges[i]@) is None,
    ensures
        !followed(edges, graph, dynamic).contains(edges[i]),
        followed(edges, graph, dynamic) == followed(edges.remove(i), graph, dynamic),
        neighbors(edges, graph, dynamic) == neighbors(edges.remove(i), graph, dynamic),
{
    let wanted = follows(graph, dynamic);
    let taken = followed(edges, graph, dynamic);
    if taken.contains(edges[i]) {
        let k = choose|k: int| 0 <= k < taken.len() && taken[k] == edges[i];
        edges.lemma_filter_pred(wanted, k);
    }
    let head = edges.take(i);
    let tail = edges.skip(i + 1);
    let one = Seq::<Dependency>::empty().push(edges[i]);
    assert(edges =~= head + one + tail);
    assert(edges.remove(i) =~= head + tail);
    Seq::<Dependency>::empty().lemma_filter_push(edges[i], wanted);
    assert(Seq::<Dependency>::empty().filter(wanted) =~= Seq::empty()) by {
        reveal(Seq::filter);
    }
    Seq::filter_distributes_over_add(head, one, wanted);
    Seq::filter_distributes_over_add(head + one, tail, wanted);
    Seq::filter_distributes_over_add(head, tail, wanted);
    assert(head.filter(wanted) + one.filter(wanted) =~= head.filter(wanted));
}

} // verus!
