//! The neighbor scan fanned out over a worker pool.
//!
//! The pool and the parallel iterator are rayon's. What this module assumes
//! of them stands in the contracts of the four functions marked as
//! unverified below; everything else is proved from those contracts.

use crate::adjacency::active_destination;
use crate::error::WorkerPoolError;
use crate::model::{destinations_at, NodeId, OutEdge, Timestamp};
use rayon::iter::{IntoParallelRefIterator, ParallelIterator};
use rayon::{ThreadPool, ThreadPoolBuildError, ThreadPoolBuilder};
use std::sync::Arc;
use vstd::prelude::*;

verus! {

/// rayon's `ThreadPool`: a set of worker threads. Opaque to the verifier.
#[verifier::external_type_specification]
#[verifier::external_body]
pub struct ExThreadPool(rayon::ThreadPool);

/// rayon's `ThreadPoolBuildError`: why a pool could not be started. Opaque
/// to the verifier.
#[verifier::external_type_specification]
#[verifier::external_body]
pub struct ExThreadPoolBuildError(rayon::ThreadPoolBuildError);

/// Unverified: calls rayon's `ThreadPoolBuilder::new`, `num_threads` and
/// `build`, which start a pool of at most `num_threads` threads (0 lets rayon
/// choose the number). Whether the threads can be started is up to the
/// machine, so nothing is claimed of the result.
#[verifier::external_body]
fn build_pool(num_threads: usize) -> (built: Result<ThreadPool, ThreadPoolBuildError>) {
    ThreadPoolBuilder::new().num_threads(num_threads).build()
}

/// Unverified: calls `Arc::clone`, which hands out another pointer to the
/// same value.
#[verifier::external_body]
fn share_pool(pool: &Arc<ThreadPool>) -> (shared: Arc<ThreadPool>)
    ensures
        shared == *pool,
{
    Arc::clone(pool)
}

/// Unverified: calls rayon's `par_iter`, `filter_map` and `collect` on the
/// entries of `edges`. rayon applies the closure once to every entry and
/// collects what it returns as `Some`; the claim is that the vector holds
/// exactly those values, each as often as it was returned. Nothing is
/// claimed of their order, which rayon's documentation does not state.
///
/// On a thread outside every pool the call runs on rayon's global pool.
/// rayon starts that pool at its first use and panics where the machine
/// cannot start it; the claim is of the calls that return.
#[verifier::external_body]
fn par_filter_collect(edges: &Vec<OutEdge>, t: Timestamp) -> (out: Vec<NodeId>)
    ensures
        out@.to_multiset() == destinations_at(edges@, t).to_multiset(),
{
    edges.par_iter().filter_map(|e| active_destination(e, t)).collect()
}

/// Unverified: calls rayon's `ThreadPool::install`, which runs the closure
/// inside `pool` and returns what the closure returns. The closure is one
/// call of `scan_parallel`, so the claim is that function's own.
#[verifier::external_body]
fn install_scan(pool: &Arc<ThreadPool>, edges: &Vec<OutEdge>, t: Timestamp) -> (out: Vec<NodeId>)
    ensures
        out@.to_multiset() == destinations_at(edges@, t).to_multiset(),
{
    pool.install(|| scan_parallel(edges, t))
}

/// Collects the destinations of the entries of `edges` that are active at
/// time `t`, splitting the scan over the worker pool that the calling thread
/// belongs to (rayon's global pool where it belongs to none). Every active
/// entry contributes its destination once; the order of the result is not
/// determined.
pub fn scan_parallel(edges: &Vec<OutEdge>, t: Timestamp) -> (out: Vec<NodeId>)
    ensures
        out@.to_multiset() == destinations_at(edges@, t).to_multiset(),
        out@.len() == destinations_at(edges@, t).len(),
{
    let out = par_filter_collect(edges, t);
    proof {
        out@.to_multiset_ensures();
        destinations_at(edges@, t).to_multiset_ensures();
    }
    out
}

/// Where a parallel scan runs: in a pool of worker threads that this value
/// owns, or in the pool of the thread that asks.
///
/// An owned pool is started once, when the value is made, with a size that
/// the maker chooses. It is no process-wide setting: values with pools of
/// different sizes live side by side.
#[derive(Debug)]
pub struct WorkerPool {
    owned: Option<(Arc<ThreadPool>, usize)>,
}

impl WorkerPool {
    /// The size that the owned pool was asked to have; `None` where no pool
    /// is owned.
    pub closed spec fn size(&self) -> Option<usize> {
        match self.owned {
            Some(pool) => Some(pool.1),
            None => None,
        }
    }

    /// No pool of its own: a scan runs in the pool of the thread that asks.
    pub fn ambient() -> (pool: Self)
        ensures
            pool.size() is None,
    {
        WorkerPool { owned: None }
    }

    /// Starts a pool of `num_threads` worker threads; 0 leaves the number to
    /// rayon. Fails where the threads cannot be started.
    pub fn with_threads(num_threads: usize) -> (r: Result<Self, WorkerPoolError>)
        ensures
            r matches Ok(pool) ==> pool.size() == Some(num_threads),
            r matches Err(e) ==> e.num_threads == num_threads,
    {
        Self::from_build(num_threads, build_pool(num_threads))
    }

    /// What `with_threads` makes of the outcome `built` of starting a pool
    /// of `num_threads` threads: the pool where it was started, else the
    /// error with the size that was asked for.
    pub fn from_build(num_threads: usize, built: Result<ThreadPool, ThreadPoolBuildError>) -> (r:
        Result<Self, WorkerPoolError>)
        ensures
            r is Ok <==> built is Ok,
            r matches Ok(pool) ==> pool.size() == Some(num_threads),
            r matches Err(e) ==> e.num_threads == num_threads,
    {
        match built {
            Ok(pool) => Ok(WorkerPool { owned: Some((Arc::new(pool), num_threads)) }),
            Err(_) => Err(WorkerPoolError { num_threads }),
        }
    }

    /// The size that the owned pool was asked to have, if one is owned.
    pub fn num_threads(&self) -> (n: Option<usize>)
        ensures
            n == self.size(),
    {
        match &self.owned {
            Some(pool) => Some(pool.1),
            None => None,
        }
    }

    /// Collects the destinations of the entries of `edges` that are active
    /// at time `t`, splitting the scan over the worker threads. Every active
    /// entry contributes its destination once, whatever the size of the
    /// pool; the order of the result is not determined.
    pub fn scan(&self, edges: &Vec<OutEdge>, t: Timestamp) -> (out: Vec<NodeId>)
        ensures
            out@.to_multiset() == destinations_at(edges@, t).to_multiset(),
            out@.len() == destinations_at(edges@, t).len(),
    {
        let out = match &self.owned {
            Some(pool) => install_scan(&pool.0, edges, t),
            None => scan_parallel(edges, t),
        };
        proof {
            out@.to_multiset_ensures();
            destinations_at(edges@, t).to_multiset_ensures();
        }
        out
    }
}

impl Clone for WorkerPool {
    /// A second handle. It shares the owned pool.
    fn clone(&self) -> (copy: Self)
        ensures
            copy.size() == self.size(),
    {
        match &self.owned {
            Some(pool) => WorkerPool { owned: Some((share_pool(&pool.0), pool.1)) },
            None => WorkerPool { owned: None },
        }
    }
}

} // verus!
