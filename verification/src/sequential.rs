//! The store with the sequential neighbor query.

use crate::adjacency::{retain_avoiding, retain_except, scan};
use crate::error::GraphError;
use crate::laws::{lemma_avoiding_twice, lemma_remove_edge_preserves_wf};
use crate::laws::{lemma_neighbors_are_nodes, lemma_remove_node_preserves_wf};
use crate::model::{edges_avoiding, GraphState, NodeId, OutEdge, Timestamp};
use std::collections::hash_map::Entry;
use std::collections::{HashMap, HashSet};
use vstd::prelude::*;

verus! {

/// What a map from source nodes to edge vectors stands for: the same keys,
/// each with the sequence that its vector holds.
pub open spec fn adjacency_view(m: Map<NodeId, Vec<OutEdge>>) -> Map<NodeId, Seq<OutEdge>> {
    Map::new(|src: NodeId| m.contains_key(src), |src: NodeId| m[src]@)
}

/// The state that a node set and an adjacency index stand for together.
spec fn state_of(nodes: Set<NodeId>, edges: Map<NodeId, Vec<OutEdge>>) -> GraphState {
    GraphState { nodes, adjacency: adjacency_view(edges) }
}

/// A directed temporal multigraph with a sequential neighbor query.
///
/// Nodes must be added before edges that name them, and removing a node
/// removes the edges at it. So no stored edge ever names a node that is not
/// in the node set: every store is well formed (`GraphState::wf`) at all
/// times, and every operation says so of the store it leaves.
///
/// Several edges may join the same two nodes, also with the same activation
/// time. Each source keeps its edges in the order in which they were added.
#[derive(Debug)]
pub struct TemporalGraph {
    edges: HashMap<NodeId, Vec<OutEdge>>,
    nodes: HashSet<NodeId>,
}

impl View for TemporalGraph {
    type V = GraphState;

    closed spec fn view(&self) -> GraphState {
        state_of(self.nodes@, self.edges@)
    }
}

impl TemporalGraph {
    /// What every store satisfies: no stored edge dangles.
    #[verifier::type_invariant]
    spec fn inv(&self) -> bool {
        self@.wf()
    }

    /// A store without nodes and edges.
    pub fn new() -> (g: Self)
        ensures
            g@ == GraphState::empty(),
            g@.wf(),
    {
        let edges: HashMap<NodeId, Vec<OutEdge>> = HashMap::new();
        let nodes: HashSet<NodeId> = HashSet::new();
        assert(state_of(nodes@, edges@) =~= GraphState::empty());
        TemporalGraph { edges, nodes }
    }

    /// The node set.
    pub fn get_nodes(&self) -> (nodes: &HashSet<NodeId>)
        ensures
            nodes@ == self@.nodes,
            self@.wf(),
    {
        proof {
            use_type_invariant(self);
        }
        &self.nodes
    }

    /// The adjacency index: for each source node with an entry, its outgoing
    /// edges in insertion order.
    pub fn get_edges(&self) -> (edges: &HashMap<NodeId, Vec<OutEdge>>)
        ensures
            adjacency_view(edges@) == self@.adjacency,
            self@.wf(),
    {
        proof {
            use_type_invariant(self);
        }
        &self.edges
    }

    /// Makes `node_id` a node. Adding a node that is there changes nothing.
    pub fn add_node(&mut self, node_id: NodeId)
        ensures
            final(self)@ == old(self)@.add_node(node_id),
            final(self)@.wf(),
    {
        let (edges, mut nodes) = self.take_parts();
        nodes.insert(node_id);
        *self = TemporalGraph { edges, nodes };
    }

    /// Appends the edge from `src` to `dst`, active from `timestamp` on, to
    /// the outgoing edges of `src`. Both must be nodes: where one is not, the
    /// store stays as it is and the error names it, `src` before `dst`.
    pub fn add_edge(&mut self, src: NodeId, dst: NodeId, timestamp: Timestamp) -> (r: Result<
        (),
        GraphError,
    >)
        ensures
            r == old(self)@.check_endpoints(src, dst),
            final(self)@ == if r is Ok {
                old(self)@.add_edge(src, dst, timestamp)
            } else {
                old(self)@
            },
            final(self)@.wf(),
    {
        proof {
            use_type_invariant(&*self);
        }
        if !self.nodes.contains(&src) {
            return Err(GraphError::NodeNotFound(src));
        }
        if !self.nodes.contains(&dst) {
            return Err(GraphError::NodeNotFound(dst));
        }
        let (mut edges, nodes) = self.take_parts();
        let ghost before = edges@;
        edges.entry(src).or_insert(Vec::new()).push((dst, timestamp));
        proof {
            let after = state_of(nodes@, edges@);
            let expected = state_of(nodes@, before).add_edge(src, dst, timestamp);
            assert(after.adjacency =~= expected.adjacency);
        }
        *self = TemporalGraph { edges, nodes };
        Ok(())
    }

    /// Removes the node `node_id`, its outgoing edges and every edge that
    /// leads to it, and returns it. Where it is no node, the store stays as
    /// it is.
    pub fn remove_node(&mut self, node_id: NodeId) -> (r: Result<NodeId, GraphError>)
        ensures
            r == if old(self)@.nodes.contains(node_id) {
                Ok::<NodeId, GraphError>(node_id)
            } else {
                Err(GraphError::NodeNotFound(node_id))
            },
            final(self)@ == if r is Ok {
                old(self)@.remove_node(node_id)
            } else {
                old(self)@
            },
            final(self)@.wf(),
    {
        proof {
            use_type_invariant(&*self);
        }
        if !self.nodes.contains(&node_id) {
            return Err(GraphError::NodeNotFound(node_id));
        }
        let (mut edges, mut nodes) = self.take_parts();
        let ghost before = state_of(nodes@, edges@);
        nodes.remove(&node_id);
        edges.remove(&node_id);
        let sources = sources_of(&edges);
        let ghost rest = edges@;
        let mut i: usize = 0;
        while i < sources.len()
            invariant
                i <= sources.len(),
                edges@.dom() == rest.dom(),
                forall|src: NodeId|
                    rest.contains_key(src) ==> (#[trigger] edges@[src])@ == if sources@.take(
                        i as int,
                    ).contains(src) {
                        edges_avoiding(rest[src]@, node_id)
                    } else {
                        rest[src]@
                    },
            decreases sources.len() - i,
        {
            let src = sources[i];
            let ghost visited = sources@.take(i as int);
            let ghost held = edges@;
            match edges.entry(src) {
                Entry::Occupied(mut slot) => {
                    retain_avoiding(slot.get_mut(), node_id);
                },
                Entry::Vacant(_) => {},
            }
            proof {
                assert(sources@.take(i + 1) =~= visited.push(src));
                assert(edges@.dom() =~= rest.dom());
                assert forall|other: NodeId| rest.contains_key(other) implies (
                #[trigger] edges@[other])@ == if visited.push(src).contains(other) {
                    edges_avoiding(rest[other]@, node_id)
                } else {
                    rest[other]@
                } by {
                    if other == src {
                        assert(visited.push(src)[i as int] == src);
                        lemma_avoiding_twice(rest[src]@, node_id);
                    } else {
                        assert(edges@[other] == held[other]);
                        if visited.contains(other) {
                            let j = choose|j: int| 0 <= j < visited.len() && visited[j] == other;
                            assert(visited.push(src)[j] == other);
                        }
                    }
                }
            }
            i += 1;
        }
        proof {
            assert(sources@.take(sources.len() as int) =~= sources@);
            assert forall|src: NodeId| rest.contains_key(src) implies sources@.contains(src) by {
                assert(sources@.to_set().contains(src));
            }
            assert(state_of(nodes@, edges@) =~= before.remove_node(node_id));
            lemma_remove_node_preserves_wf(before, node_id);
        }
        *self = TemporalGraph { edges, nodes };
        Ok(node_id)
    }

    /// Removes every edge from `src` to `dst` with activation time
    /// `timestamp`, however many there are, and returns the triple. Where
    /// there is none, the store stays as it is.
    pub fn remove_edge(&mut self, src: NodeId, dst: NodeId, timestamp: Timestamp) -> (r: Result<
        (NodeId, NodeId, Timestamp),
        GraphError,
    >)
        ensures
            r == if old(self)@.has_edge(src, dst, timestamp) {
                Ok::<(NodeId, NodeId, Timestamp), GraphError>((src, dst, timestamp))
            } else {
                Err(GraphError::EdgeNotFound(src, dst, timestamp))
            },
            final(self)@ == if r is Ok {
                old(self)@.remove_edge(src, dst, timestamp)
            } else {
                old(self)@
            },
            final(self)@.wf(),
    {
        let (mut edges, nodes) = self.take_parts();
        let ghost before = state_of(nodes@, edges@);
        let removed = match edges.entry(src) {
            Entry::Occupied(mut slot) => retain_except(slot.get_mut(), dst, timestamp),
            Entry::Vacant(_) => false,
        };
        proof {
            let after = state_of(nodes@, edges@);
            if removed {
                assert(after.adjacency =~= before.remove_edge(src, dst, timestamp).adjacency);
                lemma_remove_edge_preserves_wf(before, src, dst, timestamp);
            } else {
                assert(after.adjacency =~= before.adjacency);
            }
        }
        *self = TemporalGraph { edges, nodes };
        if removed {
            Ok((src, dst, timestamp))
        } else {
            Err(GraphError::EdgeNotFound(src, dst, timestamp))
        }
    }

    /// The destinations reached from `node` over edges that are active at
    /// time `timestamp`: one per such edge, duplicates kept, in insertion
    /// order. Empty for a node without outgoing edges and for one that is
    /// not in the store.
    pub fn get_neighbors_at(&self, node: NodeId, timestamp: Timestamp) -> (neighbors: Vec<NodeId>)
        ensures
            neighbors@ == self@.neighbors_at(node, timestamp),
            self@.out_edges(node).len() == 0 ==> neighbors@.len() == 0,
            !self@.nodes.contains(node) ==> neighbors@.len() == 0,
            forall|i: int|
                0 <= i < neighbors@.len() ==> self@.nodes.contains(#[trigger] neighbors@[i]),
            self@.wf(),
    {
        proof {
            use_type_invariant(self);
            lemma_neighbors_are_nodes(self@, node, timestamp);
        }
        match self.edges.get(&node) {
            Some(list) => scan(list, timestamp),
            None => Vec::new(),
        }
    }

    /// Moves both collections out and leaves the store empty. A mutation
    /// changes them one after the other and then puts the store together
    /// again, which is where it shows that no edge dangles.
    fn take_parts(&mut self) -> (parts: (HashMap<NodeId, Vec<OutEdge>>, HashSet<NodeId>))
        ensures
            old(self)@ == state_of(parts.1@, parts.0@),
            old(self)@.wf(),
            final(self)@ == GraphState::empty(),
    {
        proof {
            use_type_invariant(&*self);
        }
        let mut taken = TemporalGraph::new();
        std::mem::swap(self, &mut taken);
        let TemporalGraph { edges, nodes } = taken;
        (edges, nodes)
    }
}

impl Clone for TemporalGraph {
    /// A second store in the same state.
    fn clone(&self) -> (copy: Self)
        ensures
            copy@ == self@,
            copy@.wf(),
    {
        proof {
            use_type_invariant(self);
        }
        let edges = self.edges.clone();
        let nodes = copy_of(&self.nodes);
        TemporalGraph { edges, nodes }
    }
}

/// The source nodes that have an entry in `edges`, in the order in which the
/// map hands them out.
fn sources_of(edges: &HashMap<NodeId, Vec<OutEdge>>) -> (sources: Vec<NodeId>)
    ensures
        sources@.to_set() == edges@.dom(),
{
    let mut sources: Vec<NodeId> = Vec::new();
    for src in it: edges.keys()
        invariant
            sources@ == it.seq().take(it.index()).unref(),
            it.seq().unref().to_set() == edges@.dom(),
            it.index() == it.seq().len() ==> sources@ == it.seq().unref(),
    {
        proof {
            assert(it.seq().take(it.index() + 1).unref() =~= it.seq().take(it.index()).unref().push(
                *src,
            ));
            assert(it.seq().take(it.seq().len() as int) =~= it.seq());
        }
        sources.push(*src);
    }
    sources
}

/// A set with the members of `nodes`.
fn copy_of(nodes: &HashSet<NodeId>) -> (copy: HashSet<NodeId>)
    ensures
        copy@ == nodes@,
{
    let mut copy: HashSet<NodeId> = HashSet::new();
    for id in it: nodes.iter()
        invariant
            copy@ == it.seq().take(it.index()).unref().to_set(),
            it.seq().unref().to_set() == nodes@,
            it.index() == it.seq().len() ==> copy@ == nodes@,
    {
        proof {
            let seen = it.seq().take(it.index()).unref();
            assert(it.seq().take(it.index() + 1).unref() =~= seen.push(*id));
            seen.lemma_push_to_set_commute(*id);
            assert(it.seq().take(it.seq().len() as int) =~= it.seq());
        }
        copy.insert(*id);
    }
    copy
}

} // verus!
