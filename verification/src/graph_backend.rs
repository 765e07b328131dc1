//! The petgraph directed graph that stores the circuit, together with the
//! small interface the builder goes through.
//!
//! The graph's contents are named by two spec functions, `graph_nodes` and
//! `graph_edges`; each call into petgraph carries a contract over those names
//! that states what petgraph's source shows: `add_node` appends one node and
//! returns its index, `add_edge` appends one edge.

use crate::gate::GateType;
use crate::gate::Wire;
use vstd::prelude::*;

verus! {

#[verifier::external_type_specification]
#[verifier::external_body]
pub struct ExDirected(petgraph::Directed);

#[verifier::external_type_specification]
#[verifier::external_body]
#[verifier::reject_recursive_types(N)]
#[verifier::reject_recursive_types(E)]
#[verifier::reject_recursive_types(Ty)]
#[verifier::reject_recursive_types(Ix)]
pub struct ExGraph<N, E, Ty, Ix>(petgraph::graph::Graph<N, E, Ty, Ix>);

/// The gates stored at the graph's nodes, in node-index order.
pub uninterp spec fn graph_nodes(
    g: petgraph::graph::Graph<GateType, Wire, petgraph::Directed, u32>,
) -> Seq<GateType>;

/// The graph's edges as (source index, target index, wire label) triples, in
/// insertion order.
pub uninterp spec fn graph_edges(
    g: petgraph::graph::Graph<GateType, Wire, petgraph::Directed, u32>,
) -> Seq<(usize, usize, Wire)>;

/// The largest number of nodes the builder lets the graph grow to. It keeps
/// both the node count and the edge count (at most two edges per node) below
/// petgraph's index limit for the default `u32` index type.
pub const MAX_GATES: usize = 0x7FFF_FFFF;

/// Relies on petgraph's `Graph::new`: the new graph has no nodes and no edges.
#[verifier::external_body]
pub(crate) fn graph_new() -> (g: petgraph::graph::Graph<GateType, Wire, petgraph::Directed, u32>)
    ensures
        graph_nodes(g) == Seq::<GateType>::empty(),
        graph_edges(g) == Seq::<(usize, usize, Wire)>::empty(),
{
    petgraph::graph::DiGraph::new()
}

/// Relies on petgraph's `Graph::add_node`: appends one node holding `gate`
/// and returns its index, which equals the node count before the call. The
/// bound on the node count keeps the call below the `u32` index limit, at
/// which petgraph panics.
#[verifier::external_body]
pub(crate) fn graph_add_node(
    g: &mut petgraph::graph::Graph<GateType, Wire, petgraph::Directed, u32>,
    gate: GateType,
) -> (idx: usize)
    requires
        graph_nodes(*old(g)).len() < 0xFFFF_FFFF,
    ensures
        idx == graph_nodes(*old(g)).len(),
        graph_nodes(*final(g)) == graph_nodes(*old(g)).push(gate),
        graph_edges(*final(g)) == graph_edges(*old(g)),
{
    g.add_node(gate).index()
}

/// Relies on petgraph's `Graph::add_edge`: appends one edge from node `a` to
/// node `b` labeled `w`. Both endpoints must exist and the edge count must be
/// below the `u32` index limit, else petgraph panics.
#[verifier::external_body]
pub(crate) fn graph_add_edge(
    g: &mut petgraph::graph::Graph<GateType, Wire, petgraph::Directed, u32>,
    a: usize,
    b: usize,
    w: Wire,
)
    requires
        a < graph_nodes(*old(g)).len(),
        b < graph_nodes(*old(g)).len(),
        graph_edges(*old(g)).len() < 0xFFFF_FFFF,
    ensures
        graph_nodes(*final(g)) == graph_nodes(*old(g)),
        graph_edges(*final(g)) == graph_edges(*old(g)).push((a, b, w)),
{
    g.add_edge(petgraph::graph::NodeIndex::new(a), petgraph::graph::NodeIndex::new(b), w);
}

} // verus!
