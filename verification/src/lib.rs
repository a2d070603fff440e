//! Converts a Hydro program, together with the loads measured for it, into the
//! per-operator records that the CAPSys search consumes.
//!
//! [`convert`] is the entry point and [`CapsysOperator`] the record it returns.
//! [`laws`] holds what is proved of the emitted graph as a whole.

pub mod ascending;
pub mod converter;
pub mod costs;
pub mod graph;
pub mod ids;
pub mod ir;
pub mod laws;
pub mod location;
pub mod naming;
pub mod types;

pub use converter::{convert, ConvertOptions};
pub use location::LocationInfo;
pub use types::CapsysOperator;
