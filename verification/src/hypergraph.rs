//! The consumed hypergraph: an immutable snapshot of a lax open hypergraph,
//! held as plain values. Nodes and hyperedges are identified by dense
//! zero-based indices; labels arrive already formatted as strings; the
//! quotient relation is two parallel index sequences, `quotient_left[i]`
//! unified with `quotient_right[i]`.

use vstd::prelude::*;

verus! {

/// A snapshot of a lax open hypergraph.
#[derive(Clone, Debug, PartialEq)]
pub struct Hypergraph {
    /// One label per node, indexed by node index.
    pub node_labels: Vec<String>,
    /// One operation label per hyperedge, indexed by hyperedge index.
    pub edge_labels: Vec<String>,
    /// For each hyperedge, the ordered node indices of its source slots.
    pub edge_sources: Vec<Vec<usize>>,
    /// For each hyperedge, the ordered node indices of its target slots.
    pub edge_targets: Vec<Vec<usize>>,
    /// The ordered node indices of the hypergraph's open source interface.
    pub sources: Vec<usize>,
    /// The ordered node indices of the hypergraph's open target interface.
    pub targets: Vec<usize>,
    /// Left sides of the quotient pairs.
    pub quotient_left: Vec<usize>,
    /// Right sides of the quotient pairs.
    pub quotient_right: Vec<usize>,
}

/// The mathematical value of a [`Hypergraph`].
pub struct HypergraphV {
    pub node_labels: Seq<Seq<char>>,
    pub edge_labels: Seq<Seq<char>>,
    pub edge_sources: Seq<Seq<usize>>,
    pub edge_targets: Seq<Seq<usize>>,
    pub sources: Seq<usize>,
    pub targets: Seq<usize>,
    pub quotient_left: Seq<usize>,
    pub quotient_right: Seq<usize>,
}

impl View for Hypergraph {
    type V = HypergraphV;

    open spec fn view(&self) -> HypergraphV {
        HypergraphV {
            node_labels: self.node_labels@.map_values(|s: String| s@),
            edge_labels: self.edge_labels@.map_values(|s: String| s@),
            edge_sources: self.edge_sources@.map_values(|v: Vec<usize>| v@),
            edge_targets: self.edge_targets@.map_values(|v: Vec<usize>| v@),
            sources: self.sources@,
            targets: self.targets@,
            quotient_left: self.quotient_left@,
            quotient_right: self.quotient_right@,
        }
    }
}

impl HypergraphV {
    /// How many nodes the hypergraph has.
    pub open spec fn node_count(self) -> nat {
        self.node_labels.len()
    }

    /// How many hyperedges the hypergraph has.
    pub open spec fn edge_count(self) -> nat {
        self.edge_labels.len()
    }

    /// The structural invariant assumed of every consumed snapshot: the
    /// per-hyperedge metadata sequences run in parallel, the two quotient
    /// sides run in parallel, and every referenced index names a node.
    pub open spec fn wf(self) -> bool {
        &&& self.edge_sources.len() == self.edge_count()
        &&& self.edge_targets.len() == self.edge_count()
        &&& self.quotient_left.len() == self.quotient_right.len()
        &&& forall|j: int, k: int|
            0 <= j < self.edge_sources.len() && 0 <= k < self.edge_sources[j].len()
                ==> #[trigger] self.edge_sources[j][k] < self.node_count()
        &&& forall|j: int, k: int|
            0 <= j < self.edge_targets.len() && 0 <= k < self.edge_targets[j].len()
                ==> #[trigger] self.edge_targets[j][k] < self.node_count()
        &&& forall|i: int| 0 <= i < self.sources.len() ==> #[trigger] self.sources[i]
            < self.node_count()
        &&& forall|i: int| 0 <= i < self.targets.len() ==> #[trigger] self.targets[i]
            < self.node_count()
        &&& forall|i: int| 0 <= i < self.quotient_left.len() ==> #[trigger] self.quotient_left[i]
            < self.node_count()
        &&& forall|i: int| 0 <= i < self.quotient_right.len() ==> #[trigger] self.quotient_right[i]
            < self.node_count()
    }
}

} // verus!
