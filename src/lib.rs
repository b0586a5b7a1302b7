//! PageRank by damped power iteration over a dense adjacency matrix.
//!
//! The computation is generic over the number type (see [`scalar::Scalar`]);
//! what is proved concerns shapes, indices, the dangling-node policy and the
//! course of the iteration, and holds for every number type.
pub mod flat;
pub mod scalar;
pub mod schedule;
pub mod shape;
pub mod solver;

pub use flat::{pagerank_flat, rows_from_flat};
pub use scalar::Scalar;
pub use schedule::Schedule;
pub use shape::{check_shape, ShapeError};
pub use solver::{pagerank, solve, Outcome};
