//! The store with the parallel neighbor query.

use crate::error::{GraphError, WorkerPoolError};
use crate::fanout::WorkerPool;
use crate::laws::lemma_neighbors_are_nodes;
use crate::model::{GraphState, NodeId, OutEdge, Timestamp};
use crate::sequential::{adjacency_view, TemporalGraph};
use std::collections::{HashMap, HashSet};
use vstd::prelude::*;
use vstd::seq_lib::to_multiset_contains;

verus! {

/// A temporal graph whose neighbor query fans out over a worker pool.
///
/// It is a `TemporalGraph` together with the `WorkerPool` that its queries
/// run in. The mutations are those of the store; only the query differs,
/// and it returns the same destinations in an order of its own.
#[derive(Debug)]
pub struct ChronoGraph {
    graph: TemporalGraph,
    pool: WorkerPool,
}

impl View for ChronoGraph {
    type V = GraphState;

    closed spec fn view(&self) -> GraphState {
        self.graph@
    }
}

impl ChronoGraph {
    /// The size that the graph's own pool was asked to have; `None` where
    /// the graph has no pool of its own.
    pub closed spec fn pool_size(&self) -> Option<usize> {
        self.pool.size()
    }

    /// An empty graph without a pool of its own: its queries run in the
    /// pool of the thread that asks.
    pub fn new() -> (g: Self)
        ensures
            g@ == GraphState::empty(),
            g@.wf(),
            g.pool_size() is None,
    {
        Self::with_pool(WorkerPool::ambient())
    }

    /// An empty graph with a pool of `num_threads` worker threads of its
    /// own; 0 leaves the number to the pool. Fails where the threads cannot
    /// be started.
    pub fn new_with_threads(num_threads: usize) -> (r: Result<Self, WorkerPoolError>)
        ensures
            r matches Ok(g) ==> g@ == GraphState::empty() && g@.wf() && g.pool_size() == Some(
                num_threads,
            ),
            r matches Err(e) ==> e.num_threads == num_threads,
    {
        match WorkerPool::with_threads(num_threads) {
            Ok(pool) => Ok(Self::with_pool(pool)),
            Err(e) => Err(e),
        }
    }

    /// An empty graph whose queries run in `pool`.
    pub fn with_pool(pool: WorkerPool) -> (g: Self)
        ensures
            g@ == GraphState::empty(),
            g@.wf(),
            g.pool_size() == pool.size(),
    {
        ChronoGraph { graph: TemporalGraph::new(), pool }
    }

    /// The size that the graph's own pool was asked to have, if it has one.
    pub fn num_threads(&self) -> (n: Option<usize>)
        ensures
            n == self.pool_size(),
    {
        self.pool.num_threads()
    }

    /// The node set.
    pub fn get_nodes(&self) -> (nodes: &HashSet<NodeId>)
        ensures
            nodes@ == self@.nodes,
            self@.wf(),
    {
        self.graph.get_nodes()
    }

    /// The adjacency index: for each source node with an entry, its outgoing
    /// edges in insertion order.
    pub fn get_edges(&self) -> (edges: &HashMap<NodeId, Vec<OutEdge>>)
        ensures
            adjacency_view(edges@) == self@.adjacency,
            self@.wf(),
    {
        self.graph.get_edges()
    }

    /// Makes `node_id` a node. Adding a node that is there changes nothing.
    pub fn add_node(&mut self, node_id: NodeId)
        ensures
            final(self)@ == old(self)@.add_node(node_id),
            final(self)@.wf(),
            final(self).pool_size() == old(self).pool_size(),
    {
        self.graph.add_node(node_id);
    }

    /// Appends the edge from `src` to `dst`, active from `timestamp` on, to
    /// the outgoing edges of `src`. Both must be nodes: where one is not, the
    /// graph stays as it is and the error names it, `src` before `dst`.
    pub fn add_edge(&mut self, src: NodeId, dst: NodeId, timestamp: Timestamp) -> (r: Result<
        (),
        GraphError,
    >)
        ensures
            r == old(self)@.check_endpoints(src, dst),
            final(self)@ == if r is Ok {
                old(self)@.add_edge(src, dst, timestamp)
            } else {
                old(self)@
            },
            final(self)@.wf(),
            final(self).pool_size() == old(self).pool_size(),
    {
        self.graph.add_edge(src, dst, timestamp)
    }

    /// Removes the node `node_id`, its outgoing edges and every edge that
    /// leads to it, and returns it. Where it is no node, the graph stays as
    /// it is.
    pub fn remove_node(&mut self, node_id: NodeId) -> (r: Result<NodeId, GraphError>)
        ensures
            r == if old(self)@.nodes.contains(node_id) {
                Ok::<NodeId, GraphError>(node_id)
            } else {
                Err(GraphError::NodeNotFound(node_id))
            },
            final(self)@ == if r is Ok {
                old(self)@.remove_node(node_id)
            } else {
                old(self)@
            },
            final(self)@.wf(),
            final(self).pool_size() == old(self).pool_size(),
    {
        self.graph.remove_node(node_id)
    }

    /// Removes every edge from `src` to `dst` with activation time
    /// `timestamp`, however many there are, and returns the triple. Where
    /// there is none, the graph stays as it is.
    pub fn remove_edge(&mut self, src: NodeId, dst: NodeId, timestamp: Timestamp) -> (r: Result<
        (NodeId, NodeId, Timestamp),
        GraphError,
    >)
        ensures
            r == if old(self)@.has_edge(src, dst, timestamp) {
                Ok::<(NodeId, NodeId, Timestamp), GraphError>((src, dst, timestamp))
            } else {
                Err(GraphError::EdgeNotFound(src, dst, timestamp))
            },
            final(self)@ == if r is Ok {
                old(self)@.remove_edge(src, dst, timestamp)
            } else {
                old(self)@
            },
            final(self)@.wf(),
            final(self).pool_size() == old(self).pool_size(),
    {
        self.graph.remove_edge(src, dst, timestamp)
    }

    /// The destinations reached from `node` over edges that are active at
    /// time `timestamp`: one per such edge, duplicates kept. The scan is
    /// split over the worker pool, and the order of the result is not
    /// determined. Empty for a node without outgoing edges and for one that
    /// is not in the graph.
    pub fn get_neighbors_at(&self, node: NodeId, timestamp: Timestamp) -> (neighbors: Vec<NodeId>)
        ensures
            neighbors@.to_multiset() == self@.neighbors_at(node, timestamp).to_multiset(),
            neighbors@.len() == self@.neighbors_at(node, timestamp).len(),
            self@.out_edges(node).len() == 0 ==> neighbors@.len() == 0,
            !self@.nodes.contains(node) ==> neighbors@.len() == 0,
            forall|i: int|
                0 <= i < neighbors@.len() ==> self@.nodes.contains(#[trigger] neighbors@[i]),
            self@.wf(),
    {
        let neighbors = match self.graph.get_edges().get(&node) {
            Some(list) => self.pool.scan(list, timestamp),
            None => Vec::new(),
        };
        proof {
            let exact = self@.neighbors_at(node, timestamp);
            lemma_neighbors_are_nodes(self@, node, timestamp);
            assert forall|i: int| 0 <= i < neighbors@.len() implies self@.nodes.contains(
                #[trigger] neighbors@[i],
            ) by {
                let dst = neighbors@[i];
                assert(neighbors@.contains(dst));
                to_multiset_contains(neighbors@, dst);
                to_multiset_contains(exact, dst);
                let j = choose|j: int| 0 <= j < exact.len() && exact[j] == dst;
                assert(self@.nodes.contains(exact[j]));
            }
        }
        neighbors
    }
}

impl Clone for ChronoGraph {
    /// A second graph in the same state. It shares the worker pool.
    fn clone(&self) -> (copy: Self)
        ensures
            copy@ == self@,
            copy@.wf(),
            copy.pool_size() == self.pool_size(),
    {
        ChronoGraph { graph: self.graph.clone(), pool: self.pool.clone() }
    }
}

} // verus!
