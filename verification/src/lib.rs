//! An arithmetic-circuit intermediate representation: a builder that
//! incrementally describes a computation as a directed acyclic graph of typed
//! gates connected by uniquely identified wires.
//!
//! The circuit is held in a directed graph from the `petgraph` crate; a
//! verified mirror of the node sequence and a side table of the issued wires
//! let every structural invariant of the circuit be stated and proved.

pub mod circuit;
pub mod gate;
pub mod graph_backend;
pub mod laws;

pub use circuit::CircuitSpec;
pub use gate::CircuitError;
pub use gate::GateType;
pub use gate::Wire;
