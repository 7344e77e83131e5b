//! An in-memory directed temporal multigraph.
//!
//! Every edge carries the time at which it becomes active, and stays active
//! from then on. A store keeps the set of known nodes and, per source node,
//! the outgoing edges in insertion order; a neighbor query returns the
//! destinations of the edges of a node that are active at a given time.
//!
//! - [`model`] is the mathematical model: the abstract state, the effect of
//!   each mutation on it, and the answer to a query.
//! - [`laws`] proves what holds of the model whatever is done with it.
//! - [`sequential`] holds `TemporalGraph`, the store with the sequential
//!   query; [`chrono`] holds `ChronoGraph`, the same store with a query that
//!   fans out over a worker pool.
//! - [`adjacency`] and [`fanout`] hold the scans of one adjacency sequence,
//!   sequential and parallel, and [`error`] the errors.
//!
//! All executable code is verified against contracts over the model, but for
//! the calls into the worker pool, whose assumed behaviour is stated in
//! [`fanout`].

pub mod adjacency;
pub mod chrono;
pub mod error;
pub mod fanout;
pub mod laws;
pub mod model;
pub mod sequential;
