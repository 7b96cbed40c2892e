//! Label vocabularies for the example boolean-circuit diagrams: a node type
//! and an operation type. Callers format values of these types into the
//! label strings that a [`crate::hypergraph::Hypergraph`] snapshot carries.

use vstd::prelude::*;

verus! {

/// The type carried by a wire in the example diagrams.
#[derive(PartialEq, Clone, Debug, Hash)]
pub enum NodeType {
    A,
    B,
}

/// The operation performed by a hyperedge in the example diagrams.
#[derive(PartialEq, Clone, Debug)]
pub enum Operation {
    Copy,
    Mul,
}

} // verus!
