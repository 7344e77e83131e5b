//! Errors of the store's operations.

use crate::model::{NodeId, Timestamp};
use vstd::prelude::*;

verus! {

/// Why a mutation was refused. A refused mutation changes nothing.
#[derive(Debug, Clone, Copy, PartialEq, Eq, Structural)]
pub enum GraphError {
    /// The operation needs this node, and it is not in the node set.
    NodeNotFound(NodeId),
    /// No stored edge has this source, destination and activation time.
    EdgeNotFound(NodeId, NodeId, Timestamp),
}

/// The worker pool of a query engine could not be started.
#[derive(Debug, Clone, Copy, PartialEq, Eq, Structural)]
pub struct WorkerPoolError {
    /// The pool size that was asked for.
    pub num_threads: usize,
}

} // verus!
