//! Structural differences between two values of one shape.
//!
//! Comparing two values reports every point where they diverge, each with the
//! path that leads to it from the compared values (`network.retries`,
//! `items.[2]`, `First.0.name`) and borrows of the two values found there.
pub mod difference;
pub mod engine;
pub mod laws;
pub mod path;
pub mod value;

pub use difference::{Difference, Differences, Divergence, SlogDifference};
pub use engine::Diff;
pub use value::{Field, Members, Timestamp, Value};
