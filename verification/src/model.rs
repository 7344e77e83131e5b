//! The mathematical model of a temporal graph: a set of nodes and, per source
//! node, a sequence of outgoing edges. Every contract of the executable types
//! is stated over this model.

use crate::error::GraphError;
use vstd::prelude::*;

verus! {

/// Identity of a node.
pub type NodeId = usize;

/// Logical time at which an edge becomes active.
pub type Timestamp = u64;

/// One entry of an adjacency sequence: the destination and the activation time.
pub type OutEdge = (NodeId, Timestamp);

/// The test that an entry does not lead to `id`.
pub open spec fn avoids(id: NodeId) -> spec_fn(OutEdge) -> bool {
    |e: OutEdge| e.0 != id
}

/// The test that an entry is not `(dst, ts)`.
pub open spec fn differs_from(dst: NodeId, ts: Timestamp) -> spec_fn(OutEdge) -> bool {
    |e: OutEdge| !(e.0 == dst && e.1 == ts)
}

/// The destination of `e` if `e` is active at time `t`: an edge is active from
/// its activation time on.
pub open spec fn visible_at(e: OutEdge, t: Timestamp) -> Option<NodeId> {
    if e.1 <= t {
        Some(e.0)
    } else {
        None
    }
}

/// `visible_at` for a fixed time.
pub open spec fn visible(t: Timestamp) -> spec_fn(OutEdge) -> Option<NodeId> {
    |e: OutEdge| visible_at(e, t)
}

/// The entries of `edges` whose destination is not `id`, in their order.
pub open spec fn edges_avoiding(edges: Seq<OutEdge>, id: NodeId) -> Seq<OutEdge> {
    edges.filter(avoids(id))
}

/// The entries of `edges` other than `(dst, ts)`, in their order.
pub open spec fn edges_except(edges: Seq<OutEdge>, dst: NodeId, ts: Timestamp) -> Seq<OutEdge> {
    edges.filter(differs_from(dst, ts))
}

/// The destinations of the entries of `edges` that are active at time `t`,
/// one per matching entry, in the order of the entries.
pub open spec fn destinations_at(edges: Seq<OutEdge>, t: Timestamp) -> Seq<NodeId> {
    edges.filter_map(visible(t))
}

/// Abstract state of a store.
#[verifier::ext_equal]
pub struct GraphState {
    /// The nodes currently known.
    pub nodes: Set<NodeId>,
    /// Outgoing edges per source node, in insertion order. A node has an entry
    /// from its first outgoing edge on.
    pub adjacency: Map<NodeId, Seq<OutEdge>>,
}

impl GraphState {
    /// The state without nodes and edges.
    pub open spec fn empty() -> Self {
        GraphState { nodes: Set::empty(), adjacency: Map::empty() }
    }

    /// The outgoing edges of `node`; empty where it has no entry.
    pub open spec fn out_edges(self, node: NodeId) -> Seq<OutEdge> {
        if self.adjacency.contains_key(node) {
            self.adjacency[node]
        } else {
            Seq::empty()
        }
    }

    /// Whether some edge from `src` to `dst` with activation time `ts` is stored.
    pub open spec fn has_edge(self, src: NodeId, dst: NodeId, ts: Timestamp) -> bool {
        self.out_edges(src).contains((dst, ts))
    }

    /// No edge dangles: every source with an entry and every destination is a
    /// known node, and both collections are finite.
    pub open spec fn wf(self) -> bool {
        &&& self.nodes.finite()
        &&& self.adjacency.dom().finite()
        &&& forall|src: NodeId| #[trigger]
            self.adjacency.contains_key(src) ==> self.nodes.contains(src)
        &&& forall|src: NodeId, i: int|
            self.adjacency.contains_key(src) && 0 <= i < self.adjacency[src].len()
                ==> self.nodes.contains((#[trigger] self.adjacency[src][i]).0)
    }

    /// Whether an edge from `src` to `dst` may be added: both must be nodes.
    /// Where one is not, the error names it, `src` before `dst`.
    pub open spec fn check_endpoints(self, src: NodeId, dst: NodeId) -> Result<(), GraphError> {
        if !self.nodes.contains(src) {
            Err(GraphError::NodeNotFound(src))
        } else if !self.nodes.contains(dst) {
            Err(GraphError::NodeNotFound(dst))
        } else {
            Ok(())
        }
    }

    /// The state after `id` has been made a node.
    pub open spec fn add_node(self, id: NodeId) -> Self {
        GraphState { nodes: self.nodes.insert(id), adjacency: self.adjacency }
    }

    /// The state after the edge `(src, dst, ts)` has been appended to the
    /// outgoing edges of `src`.
    pub open spec fn add_edge(self, src: NodeId, dst: NodeId, ts: Timestamp) -> Self {
        GraphState {
            nodes: self.nodes,
            adjacency: self.adjacency.insert(src, self.out_edges(src).push((dst, ts))),
        }
    }

    /// The state after `id` has been removed together with its outgoing edges
    /// and with every edge that leads to it.
    pub open spec fn remove_node(self, id: NodeId) -> Self {
        GraphState {
            nodes: self.nodes.remove(id),
            adjacency: Map::new(
                |src: NodeId| src != id && self.adjacency.contains_key(src),
                |src: NodeId| edges_avoiding(self.adjacency[src], id),
            ),
        }
    }

    /// The state after every edge `(src, dst, ts)` has been removed. The entry
    /// of `src` stays, possibly empty; a source without an entry gets none.
    pub open spec fn remove_edge(self, src: NodeId, dst: NodeId, ts: Timestamp) -> Self {
        if self.adjacency.contains_key(src) {
            GraphState {
                nodes: self.nodes,
                adjacency: self.adjacency.insert(src, edges_except(self.adjacency[src], dst, ts)),
            }
        } else {
            self
        }
    }

    /// The destinations reached from `node` over edges active at time `t`,
    /// one per edge, in insertion order.
    pub open spec fn neighbors_at(self, node: NodeId, t: Timestamp) -> Seq<NodeId> {
        destinations_at(self.out_edges(node), t)
    }
}

} // verus!
