//! Laws of the model: what holds of every state and of every sequence of
//! operations, proved once over `GraphState`.

use crate::chrono::ChronoGraph;
use crate::error::GraphError;
use crate::model::{avoids, destinations_at, differs_from, edges_avoiding, edges_except};
use crate::model::{GraphState, NodeId, OutEdge, Timestamp};
use crate::sequential::TemporalGraph;
use vstd::seq_lib::to_multiset_contains;
use vstd::prelude::*;

verus! {

// Sequences of entries

/// Every entry that a filter keeps passes the test and was an entry before.
pub proof fn lemma_filter_keeps(edges: Seq<OutEdge>, keep: spec_fn(OutEdge) -> bool)
    ensures
        forall|i: int|
            0 <= i < edges.filter(keep).len() ==> keep(#[trigger] edges.filter(keep)[i])
                && edges.contains(edges.filter(keep)[i]),
{
    assert forall|i: int| 0 <= i < edges.filter(keep).len() implies keep(
        #[trigger] edges.filter(keep)[i],
    ) && edges.contains(edges.filter(keep)[i]) by {
        let e = edges.filter(keep)[i];
        edges.lemma_filter_pred(keep, i);
        assert(edges.filter(keep).contains(e));
        edges.lemma_filter_contains_rev(keep, e);
    }
}

/// A filter whose test every entry passes changes nothing.
pub proof fn lemma_filter_all(edges: Seq<OutEdge>, keep: spec_fn(OutEdge) -> bool)
    requires
        forall|i: int| 0 <= i < edges.len() ==> keep(#[trigger] edges[i]),
    ensures
        edges.filter(keep) == edges,
    decreases edges.len(),
{
    reveal(Seq::filter);
    if edges.len() > 0 {
        lemma_filter_all(edges.drop_last(), keep);
        assert(edges.drop_last().push(edges.last()) =~= edges);
    }
}

/// A filter whose test some entry fails gives a shorter sequence.
pub proof fn lemma_filter_drops(edges: Seq<OutEdge>, keep: spec_fn(OutEdge) -> bool, i: int)
    requires
        0 <= i < edges.len(),
        !keep(edges[i]),
    ensures
        edges.filter(keep).len() < edges.len(),
    decreases edges.len(),
{
    reveal(Seq::filter);
    let rest = edges.drop_last();
    rest.lemma_filter_len(keep);
    if i < rest.len() {
        assert(rest[i] == edges[i]);
        lemma_filter_drops(rest, keep, i);
    }
}

/// Entries that lead to `id` are taken out in one pass: a second pass finds
/// nothing more.
pub proof fn lemma_avoiding_twice(edges: Seq<OutEdge>, id: NodeId)
    ensures
        edges_avoiding(edges_avoiding(edges, id), id) == edges_avoiding(edges, id),
{
    lemma_filter_keeps(edges, avoids(id));
    lemma_filter_all(edges.filter(avoids(id)), avoids(id));
}

/// A scan of a sequence with one more entry at its end gives what the scan
/// of the sequence gave, followed by the destination of the new entry if
/// that entry is active.
pub proof fn lemma_destinations_push(edges: Seq<OutEdge>, e: OutEdge, t: Timestamp)
    ensures
        destinations_at(edges.push(e), t) == if e.1 <= t {
            destinations_at(edges, t).push(e.0)
        } else {
            destinations_at(edges, t)
        },
{
    assert(edges.push(e).drop_last() =~= edges);
    assert(destinations_at(edges, t) + seq![e.0] =~= destinations_at(edges, t).push(e.0));
}

/// A scan finds a destination exactly when an entry that is active at the
/// time of the scan leads to it.
pub proof fn lemma_destinations_characterized(edges: Seq<OutEdge>, t: Timestamp, dst: NodeId)
    ensures
        destinations_at(edges, t).contains(dst) <==> exists|ts: Timestamp|
            ts <= t && #[trigger] edges.contains((dst, ts)),
    decreases edges.len(),
{
    if edges.len() > 0 {
        let rest = edges.drop_last();
        let last = edges.last();
        lemma_destinations_characterized(rest, t, dst);
        lemma_destinations_push(rest, last, t);
        assert(rest.push(last) =~= edges);
        let found = destinations_at(rest, t);
        if destinations_at(edges, t).contains(dst) {
            let i = choose|i: int|
                0 <= i < destinations_at(edges, t).len() && destinations_at(edges, t)[i] == dst;
            if i < found.len() {
                assert(found[i] == dst);
                let ts = choose|ts: Timestamp| ts <= t && #[trigger] rest.contains((dst, ts));
                let j = choose|j: int| 0 <= j < rest.len() && rest[j] == (dst, ts);
                assert(edges[j] == (dst, ts));
                assert(edges.contains((dst, ts)));
            } else {
                assert(edges[edges.len() - 1] == last);
                assert(edges.contains((dst, last.1)));
            }
        }
        if exists|ts: Timestamp| ts <= t && #[trigger] edges.contains((dst, ts)) {
            let ts = choose|ts: Timestamp| ts <= t && #[trigger] edges.contains((dst, ts));
            let j = choose|j: int| 0 <= j < edges.len() && edges[j] == (dst, ts);
            if j < rest.len() {
                assert(rest[j] == (dst, ts));
                assert(rest.contains((dst, ts)));
                let i = choose|i: int| 0 <= i < found.len() && found[i] == dst;
                assert(destinations_at(edges, t)[i] == dst);
            } else {
                assert(found.push(dst)[found.len() as int] == dst);
            }
        }
    }
}

/// An edge never expires: a later scan finds at least as many destinations
/// as an earlier one, and every destination that the earlier one found.
pub proof fn lemma_destinations_monotone(edges: Seq<OutEdge>, earlier: Timestamp, later: Timestamp)
    requires
        earlier <= later,
    ensures
        destinations_at(edges, earlier).len() <= destinations_at(edges, later).len(),
        forall|dst: NodeId|
            destinations_at(edges, earlier).contains(dst) ==> #[trigger] destinations_at(
                edges,
                later,
            ).contains(dst),
    decreases edges.len(),
{
    if edges.len() > 0 {
        let rest = edges.drop_last();
        lemma_destinations_monotone(rest, earlier, later);
        lemma_destinations_push(rest, edges.last(), earlier);
        lemma_destinations_push(rest, edges.last(), later);
        assert(rest.push(edges.last()) =~= edges);
    }
    assert forall|dst: NodeId| destinations_at(edges, earlier).contains(dst) implies (
    #[trigger] destinations_at(edges, later).contains(dst)) by {
        lemma_destinations_characterized(edges, earlier, dst);
        lemma_destinations_characterized(edges, later, dst);
        let ts = choose|ts: Timestamp| ts <= earlier && #[trigger] edges.contains((dst, ts));
        assert(ts <= later && edges.contains((dst, ts)));
    }
}

// Well-formedness is kept

/// The empty state is well formed.
pub proof fn lemma_empty_wf()
    ensures
        GraphState::empty().wf(),
{
}

/// Adding a node keeps a state well formed.
pub proof fn lemma_add_node_preserves_wf(s: GraphState, id: NodeId)
    requires
        s.wf(),
    ensures
        s.add_node(id).wf(),
{
}

/// Adding an edge between two nodes keeps a state well formed.
pub proof fn lemma_add_edge_preserves_wf(s: GraphState, src: NodeId, dst: NodeId, ts: Timestamp)
    requires
        s.wf(),
        s.check_endpoints(src, dst) is Ok,
    ensures
        s.add_edge(src, dst, ts).wf(),
{
    let after = s.add_edge(src, dst, ts);
    assert(after.adjacency.dom() =~= s.adjacency.dom().insert(src));
    assert forall|from: NodeId, i: int|
        after.adjacency.contains_key(from) && 0 <= i < after.adjacency[from].len()
            implies after.nodes.contains((#[trigger] after.adjacency[from][i]).0) by {
        if from == src {
            if i < s.out_edges(src).len() {
                assert(after.adjacency[from][i] == s.adjacency[src][i]);
            }
        } else {
            assert(after.adjacency[from][i] == s.adjacency[from][i]);
        }
    }
}

/// Removing a node keeps a state well formed.
pub proof fn lemma_remove_node_preserves_wf(s: GraphState, id: NodeId)
    requires
        s.wf(),
    ensures
        s.remove_node(id).wf(),
{
    let after = s.remove_node(id);
    assert(after.adjacency.dom() =~= s.adjacency.dom().remove(id));
    assert forall|from: NodeId, i: int|
        after.adjacency.contains_key(from) && 0 <= i < after.adjacency[from].len()
            implies after.nodes.contains((#[trigger] after.adjacency[from][i]).0) by {
        lemma_filter_keeps(s.adjacency[from], avoids(id));
        let e = after.adjacency[from][i];
        assert(edges_avoiding(s.adjacency[from], id)[i] == e);
        assert(s.adjacency[from].contains(e));
        let j = choose|j: int| 0 <= j < s.adjacency[from].len() && s.adjacency[from][j] == e;
        assert(s.nodes.contains(s.adjacency[from][j].0));
    }
}

/// Removing an edge keeps a state well formed.
pub proof fn lemma_remove_edge_preserves_wf(s: GraphState, src: NodeId, dst: NodeId, ts: Timestamp)
    requires
        s.wf(),
    ensures
        s.remove_edge(src, dst, ts).wf(),
{
    let after = s.remove_edge(src, dst, ts);
    if s.adjacency.contains_key(src) {
        assert(after.adjacency.dom() =~= s.adjacency.dom());
        assert forall|from: NodeId, i: int|
            after.adjacency.contains_key(from) && 0 <= i < after.adjacency[from].len()
                implies after.nodes.contains((#[trigger] after.adjacency[from][i]).0) by {
            if from == src {
                lemma_filter_keeps(s.adjacency[src], differs_from(dst, ts));
                let e = after.adjacency[from][i];
                assert(edges_except(s.adjacency[src], dst, ts)[i] == e);
                assert(s.adjacency[src].contains(e));
                let j = choose|j: int| 0 <= j < s.adjacency[src].len() && s.adjacency[src][j] == e;
                assert(s.nodes.contains(s.adjacency[src][j].0));
            } else {
                assert(after.adjacency[from][i] == s.adjacency[from][i]);
            }
        }
    }
}

// What each mutation changes

/// Adding a node twice gives the state that adding it once gives.
pub proof fn lemma_add_node_idempotent(s: GraphState, id: NodeId)
    ensures
        s.add_node(id).add_node(id) == s.add_node(id),
        s.add_node(id).nodes == s.nodes.insert(id),
        s.nodes.contains(id) ==> s.add_node(id) == s,
{
    assert(s.add_node(id).add_node(id) =~= s.add_node(id));
    if s.nodes.contains(id) {
        assert(s.add_node(id) =~= s);
    }
}

/// An edge is refused exactly when one of its endpoints is not a node, and
/// the error is `NodeNotFound` of an endpoint that is missing.
pub proof fn lemma_check_endpoints(s: GraphState, src: NodeId, dst: NodeId)
    ensures
        s.check_endpoints(src, dst) is Ok <==> s.nodes.contains(src) && s.nodes.contains(dst),
        s.check_endpoints(src, dst) matches Err(e) ==> (e matches GraphError::NodeNotFound(id)
            && (id == src || id == dst) && !s.nodes.contains(id)),
{
}

/// An added edge is the last outgoing edge of its source, behind those that
/// were there, and no other node's edges change.
pub proof fn lemma_add_edge_appends(s: GraphState, src: NodeId, dst: NodeId, ts: Timestamp)
    ensures
        s.add_edge(src, dst, ts).out_edges(src) == s.out_edges(src).push((dst, ts)),
        s.add_edge(src, dst, ts).has_edge(src, dst, ts),
        forall|other: NodeId|
            other != src ==> #[trigger] s.add_edge(src, dst, ts).out_edges(other) == s.out_edges(
                other,
            ),
{
    let list = s.out_edges(src).push((dst, ts));
    assert(list[list.len() - 1] == (dst, ts));
}

/// After a node has been removed it is no node, it has no outgoing edges,
/// no edge leads to it, and every edge between other nodes is still there.
pub proof fn lemma_remove_node_cascades(s: GraphState, id: NodeId)
    ensures
        s.remove_node(id).nodes == s.nodes.remove(id),
        !s.remove_node(id).nodes.contains(id),
        !s.remove_node(id).adjacency.contains_key(id),
        forall|src: NodeId, ts: Timestamp| !#[trigger] s.remove_node(id).has_edge(src, id, ts),
        forall|src: NodeId, dst: NodeId, ts: Timestamp|
            src != id && dst != id ==> (#[trigger] s.remove_node(id).has_edge(src, dst, ts)
                <==> s.has_edge(src, dst, ts)),
{
    let after = s.remove_node(id);
    assert forall|src: NodeId, ts: Timestamp| !#[trigger] after.has_edge(src, id, ts) by {
        if after.has_edge(src, id, ts) {
            lemma_filter_keeps(s.adjacency[src], avoids(id));
            let list = after.out_edges(src);
            let i = choose|i: int| 0 <= i < list.len() && list[i] == (id, ts);
            assert(avoids(id)(edges_avoiding(s.adjacency[src], id)[i]));
        }
    }
    assert forall|src: NodeId, dst: NodeId, ts: Timestamp| src != id && dst != id implies (
    #[trigger] after.has_edge(src, dst, ts) <==> s.has_edge(src, dst, ts)) by {
        if after.has_edge(src, dst, ts) {
            s.adjacency[src].lemma_filter_contains_rev(avoids(id), (dst, ts));
        }
        if s.has_edge(src, dst, ts) {
            let list = s.adjacency[src];
            let i = choose|i: int| 0 <= i < list.len() && list[i] == (dst, ts);
            list.lemma_filter_contains(avoids(id), i);
        }
    }
}

/// Removing what is no node changes nothing in a well-formed state.
pub proof fn lemma_remove_absent_node(s: GraphState, id: NodeId)
    requires
        s.wf(),
        !s.nodes.contains(id),
    ensures
        s.remove_node(id) == s,
{
    let after = s.remove_node(id);
    assert(after.nodes =~= s.nodes);
    assert forall|src: NodeId| s.adjacency.contains_key(src) implies edges_avoiding(
        #[trigger] s.adjacency[src],
        id,
    ) == s.adjacency[src] by {
        lemma_filter_all(s.adjacency[src], avoids(id));
    }
    assert(after.adjacency =~= s.adjacency);
}

/// After an edge has been removed no copy of it is left, every other edge
/// is still there, the nodes are the same, and so are the sources that have
/// an entry.
pub proof fn lemma_remove_edge_exact(s: GraphState, src: NodeId, dst: NodeId, ts: Timestamp)
    ensures
        !s.remove_edge(src, dst, ts).has_edge(src, dst, ts),
        s.remove_edge(src, dst, ts).nodes == s.nodes,
        s.remove_edge(src, dst, ts).adjacency.dom() == s.adjacency.dom(),
        forall|a: NodeId, b: NodeId, t: Timestamp|
            (a, b, t) != (src, dst, ts) ==> (#[trigger] s.remove_edge(src, dst, ts).has_edge(
                a,
                b,
                t,
            ) <==> s.has_edge(a, b, t)),
{
    let after = s.remove_edge(src, dst, ts);
    if s.adjacency.contains_key(src) {
        let list = s.adjacency[src];
        let keep = differs_from(dst, ts);
        lemma_filter_keeps(list, keep);
        assert(after.adjacency.dom() =~= s.adjacency.dom());
        if after.has_edge(src, dst, ts) {
            let kept = after.out_edges(src);
            let i = choose|i: int| 0 <= i < kept.len() && kept[i] == (dst, ts);
            assert(keep(list.filter(keep)[i]));
        }
        assert forall|a: NodeId, b: NodeId, t: Timestamp| (a, b, t) != (src, dst, ts) implies (
        #[trigger] after.has_edge(a, b, t) <==> s.has_edge(a, b, t)) by {
            if a == src {
                if after.has_edge(a, b, t) {
                    list.lemma_filter_contains_rev(keep, (b, t));
                }
                if s.has_edge(a, b, t) {
                    let i = choose|i: int| 0 <= i < list.len() && list[i] == (b, t);
                    list.lemma_filter_contains(keep, i);
                }
            }
        }
    }
}

/// Removing an edge that is not stored changes nothing.
pub proof fn lemma_remove_absent_edge(s: GraphState, src: NodeId, dst: NodeId, ts: Timestamp)
    requires
        !s.has_edge(src, dst, ts),
    ensures
        s.remove_edge(src, dst, ts) == s,
{
    if s.adjacency.contains_key(src) {
        let list = s.adjacency[src];
        assert forall|i: int| 0 <= i < list.len() implies differs_from(dst, ts)(
            #[trigger] list[i],
        ) by {
            if list[i] == (dst, ts) {
                assert(list.contains((dst, ts)));
            }
        }
        lemma_filter_all(list, differs_from(dst, ts));
        assert(s.remove_edge(src, dst, ts).adjacency =~= s.adjacency);
    }
}

// Queries

/// A query is empty, for every time, at what is no node of a well-formed
/// state and at a node without outgoing edges.
pub proof fn lemma_neighbors_empty(s: GraphState, node: NodeId, t: Timestamp)
    requires
        (s.wf() && !s.nodes.contains(node)) || s.out_edges(node).len() == 0,
    ensures
        s.neighbors_at(node, t) == Seq::<NodeId>::empty(),
{
    assert(s.out_edges(node).len() == 0);
}

/// A query finds a destination exactly when a stored edge from the node
/// leads to it and is active at the time of the query.
pub proof fn lemma_neighbors_characterized(s: GraphState, node: NodeId, t: Timestamp, dst: NodeId)
    ensures
        s.neighbors_at(node, t).contains(dst) <==> exists|ts: Timestamp|
            ts <= t && #[trigger] s.has_edge(node, dst, ts),
{
    lemma_destinations_characterized(s.out_edges(node), t, dst);
    if s.neighbors_at(node, t).contains(dst) {
        let ts = choose|ts: Timestamp| ts <= t && #[trigger] s.out_edges(node).contains((dst, ts));
        assert(s.has_edge(node, dst, ts));
    }
    if exists|ts: Timestamp| ts <= t && #[trigger] s.has_edge(node, dst, ts) {
        let ts = choose|ts: Timestamp| ts <= t && #[trigger] s.has_edge(node, dst, ts);
        assert(s.out_edges(node).contains((dst, ts)));
    }
}

/// In a well-formed state every destination that a query finds is a node.
pub proof fn lemma_neighbors_are_nodes(s: GraphState, node: NodeId, t: Timestamp)
    requires
        s.wf(),
    ensures
        forall|i: int|
            0 <= i < s.neighbors_at(node, t).len() ==> s.nodes.contains(
                #[trigger] s.neighbors_at(node, t)[i],
            ),
{
    let found = s.neighbors_at(node, t);
    assert forall|i: int| 0 <= i < found.len() implies s.nodes.contains(#[trigger] found[i]) by {
        let dst = found[i];
        assert(found.contains(dst));
        lemma_destinations_characterized(s.out_edges(node), t, dst);
        let ts = choose|ts: Timestamp| ts <= t && #[trigger] s.out_edges(node).contains((dst, ts));
        let list = s.adjacency[node];
        let j = choose|j: int| 0 <= j < list.len() && list[j] == (dst, ts);
        assert(s.nodes.contains(list[j].0));
    }
}

/// After a node has been removed no query finds it, at any node and for any
/// time.
pub proof fn lemma_removed_node_not_found(s: GraphState, id: NodeId, node: NodeId, t: Timestamp)
    ensures
        !s.remove_node(id).neighbors_at(node, t).contains(id),
{
    lemma_neighbors_characterized(s.remove_node(id), node, t, id);
    lemma_remove_node_cascades(s, id);
}

/// After an edge has been added, a query at its source finds what it found
/// before, followed by the new destination if the edge is active at the time
/// of the query; queries at other nodes find what they found before.
pub proof fn lemma_neighbors_after_add_edge(
    s: GraphState,
    src: NodeId,
    dst: NodeId,
    ts: Timestamp,
    t: Timestamp,
)
    ensures
        s.add_edge(src, dst, ts).neighbors_at(src, t) == if ts <= t {
            s.neighbors_at(src, t).push(dst)
        } else {
            s.neighbors_at(src, t)
        },
        forall|other: NodeId|
            other != src ==> #[trigger] s.add_edge(src, dst, ts).neighbors_at(other, t)
                == s.neighbors_at(other, t),
{
    lemma_destinations_push(s.out_edges(src), (dst, ts), t);
}

/// The sequential and the parallel query agree: on stores in the same state,
/// for the same node and time, whatever the parallel query returns holds the
/// destinations that the sequential query returns, each as often. The size
/// of the worker pool plays no part.
pub proof fn lemma_sequential_parallel_agree(
    seq_store: TemporalGraph,
    par_store: ChronoGraph,
    node: NodeId,
    t: Timestamp,
    sequential: Seq<NodeId>,
    parallel: Seq<NodeId>,
)
    requires
        seq_store@ == par_store@,
        sequential == seq_store@.neighbors_at(node, t),
        parallel.to_multiset() == par_store@.neighbors_at(node, t).to_multiset(),
    ensures
        sequential.to_multiset() == parallel.to_multiset(),
        sequential.len() == parallel.len(),
        forall|dst: NodeId| sequential.contains(dst) <==> parallel.contains(dst),
{
    sequential.to_multiset_ensures();
    parallel.to_multiset_ensures();
    assert forall|dst: NodeId| sequential.contains(dst) <==> parallel.contains(dst) by {
        to_multiset_contains(sequential, dst);
        to_multiset_contains(parallel, dst);
    }
}

/// Two parallel queries agree: on graphs in the same state, for the same
/// node and time, their results hold the same destinations, each as often,
/// whatever pools the graphs have and however the work was split.
pub proof fn lemma_parallel_runs_agree(
    a: ChronoGraph,
    b: ChronoGraph,
    node: NodeId,
    t: Timestamp,
    from_a: Seq<NodeId>,
    from_b: Seq<NodeId>,
)
    requires
        a@ == b@,
        from_a.to_multiset() == a@.neighbors_at(node, t).to_multiset(),
        from_b.to_multiset() == b@.neighbors_at(node, t).to_multiset(),
    ensures
        from_a.to_multiset() == from_b.to_multiset(),
        from_a.len() == from_b.len(),
{
    from_a.to_multiset_ensures();
    from_b.to_multiset_ensures();
}

} // verus!
