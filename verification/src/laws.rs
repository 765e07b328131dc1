//! The circuit's global laws, each stated and proved over the views that the
//! construction calls' contracts speak of.

use crate::circuit::edges_of;
use crate::circuit::lemma_nodes_wf_drop_last;
use crate::circuit::lemma_wire_table;
use crate::circuit::node_edges;
use crate::circuit::node_wf;
use crate::circuit::nodes_wf;
use crate::circuit::wire_in;
use crate::circuit::CircuitSpec;
use crate::gate::arity;
use crate::gate::gate_inputs;
use crate::gate::gate_output;
use crate::gate::GateType;
use crate::gate::Wire;
use crate::graph_backend::graph_edges;
use crate::graph_backend::graph_nodes;
use crate::graph_backend::MAX_GATES;
use vstd::prelude::*;

verus! {

/// The predicate picking the edges whose target is node `i`.
pub open spec fn targets(i: usize) -> spec_fn((usize, usize, Wire)) -> bool {
    |e: (usize, usize, Wire)| e.1 == i
}

/// The edges whose target is node `i`, in insertion order: node `i`'s
/// in-edges.
pub open spec fn in_edges(edges: Seq<(usize, usize, Wire)>, i: usize) -> Seq<(usize, usize, Wire)> {
    edges.filter(targets(i))
}

/// Filtering keeps a sequence whole when every element passes.
proof fn lemma_filter_all<A>(s: Seq<A>, pred: spec_fn(A) -> bool)
    requires
        forall|k: int| 0 <= k < s.len() ==> pred(#[trigger] s[k]),
    ensures
        s.filter(pred) == s,
    decreases s.len(),
{
    reveal(Seq::filter);
    if s.len() > 0 {
        lemma_filter_all(s.drop_last(), pred);
        assert(s.filter(pred) =~= s);
    }
}

/// Filtering empties a sequence when no element passes.
proof fn lemma_filter_none<A>(s: Seq<A>, pred: spec_fn(A) -> bool)
    requires
        forall|k: int| 0 <= k < s.len() ==> !pred(#[trigger] s[k]),
    ensures
        s.filter(pred) == Seq::<A>::empty(),
    decreases s.len(),
{
    reveal(Seq::filter);
    if s.len() > 0 {
        lemma_filter_none(s.drop_last(), pred);
    }
}

/// Every edge of a gate sequence targets an existing node.
proof fn lemma_edges_targets(nodes: Seq<GateType>)
    requires
        nodes.len() <= MAX_GATES,
    ensures
        forall|k: int|
            0 <= k < edges_of(nodes).len() ==> (#[trigger] edges_of(nodes)[k]).1 < nodes.len(),
    decreases nodes.len(),
{
    if nodes.len() > 0 {
        let dl = nodes.drop_last();
        let last = nodes.last();
        let t = (nodes.len() - 1) as usize;
        lemma_edges_targets(dl);
        assert forall|k: int| 0 <= k < edges_of(nodes).len() implies (#[trigger] edges_of(
            nodes,
        )[k]).1 < nodes.len() by {
            assert(edges_of(nodes) == edges_of(dl) + node_edges(last, t));
            if k < edges_of(dl).len() {
                assert(edges_of(nodes)[k] == edges_of(dl)[k]);
            } else {
                assert(edges_of(nodes)[k] == node_edges(last, t)[k - edges_of(dl).len()]);
                assert(node_edges(last, t)[k - edges_of(dl).len()].1 == t);
            }
        }
    }
}

/// The in-edges of node `i` are exactly the block of edges its gate
/// contributed at insertion.
pub proof fn lemma_edges_partition(nodes: Seq<GateType>, i: usize)
    requires
        i < nodes.len(),
        nodes.len() <= MAX_GATES,
    ensures
        in_edges(edges_of(nodes), i) == node_edges(nodes[i as int], i),
    decreases nodes.len(),
{
    let pred = targets(i);
    let dl = nodes.drop_last();
    let last = nodes.last();
    let t = (nodes.len() - 1) as usize;
    assert(edges_of(nodes) == edges_of(dl) + node_edges(last, t));
    Seq::<(usize, usize, Wire)>::filter_distributes_over_add(edges_of(dl), node_edges(last, t), pred);
    assert forall|k: int| 0 <= k < node_edges(last, t).len() implies (#[trigger] node_edges(
        last,
        t,
    )[k]).1 == t by {
        assert(node_edges(last, t)[k] == (gate_inputs(last)[k].producer, t, gate_inputs(last)[k]));
    }
    if i < nodes.len() - 1 {
        lemma_edges_partition(dl, i);
        lemma_filter_none(node_edges(last, t), pred);
        assert(in_edges(edges_of(nodes), i) =~= in_edges(edges_of(dl), i));
        assert(nodes[i as int] == dl[i as int]);
    } else {
        assert(t == i);
        lemma_edges_targets(dl);
        assert forall|k: int| 0 <= k < edges_of(dl).len() implies !pred(
            #[trigger] edges_of(dl)[k],
        ) by {
            assert(edges_of(dl)[k].1 < dl.len());
        }
        lemma_filter_none(edges_of(dl), pred);
        lemma_filter_all(node_edges(last, t), pred);
        assert(in_edges(edges_of(nodes), i) =~= node_edges(last, t));
    }
}

/// Law: wire ids are unique and strictly increasing in issuance order — the
/// k-th wire a circuit issues carries id `k`.
pub proof fn lemma_wire_ids_strictly_increasing(c: CircuitSpec)
    requires
        c.wf(),
    ensures
        forall|k: int| 0 <= k < c.wires@.len() ==> (#[trigger] c.wires@[k]).id == k,
        forall|i: int, j: int|
            0 <= i < j < c.wires@.len() ==> c.wires@[i].id < c.wires@[j].id,
{
    lemma_wire_table(c.gates@);
}

/// Law: the `producer` recorded on every issued wire resolves to the node
/// inserted by the call that created it — an existing node whose gate
/// declares exactly that wire as its output.
pub proof fn lemma_producer_resolves(c: CircuitSpec)
    requires
        c.wf(),
    ensures
        forall|k: int|
            0 <= k < c.wires@.len() ==> {
                let w = #[trigger] c.wires@[k];
                w.producer < c.gates@.len() && gate_output(c.gates@[w.producer as int]) == Some(w)
            },
{
    lemma_wire_table(c.gates@);
}

/// Law: a node receives one edge per operand of its gate, and those edges,
/// oldest first, carry the operand wires in the order the call gave them,
/// each starting at the node that made its wire.
pub proof fn lemma_in_edges_match_arity(c: CircuitSpec, i: usize)
    requires
        c.wf(),
        i < c.gates@.len(),
    ensures
        in_edges(graph_edges(c.graph), i).len() == arity(c.gates@[i as int]),
        forall|k: int|
            0 <= k < arity(c.gates@[i as int]) ==> #[trigger] in_edges(graph_edges(c.graph), i)[k]
                == (
                gate_inputs(c.gates@[i as int])[k].producer,
                i,
                gate_inputs(c.gates@[i as int])[k],
            ),
{
    lemma_edges_partition(c.gates@, i);
}

/// Whether the edge set holds some edge from node `a` to node `b`.
pub open spec fn edge_present(edges: Seq<(usize, usize, Wire)>, a: usize, b: usize) -> bool {
    exists|k: int| 0 <= k < edges.len() && (#[trigger] edges[k]).0 == a && edges[k].1 == b
}

/// Whether `p` is a traversal of the edge set: a sequence of nodes each
/// connected to the next by an edge.
pub open spec fn is_path(edges: Seq<(usize, usize, Wire)>, p: Seq<usize>) -> bool {
    p.len() >= 1 && forall|k: int|
        0 <= k < p.len() - 1 ==> edge_present(edges, #[trigger] p[k], p[k + 1])
}

/// Every edge of a well-formed gate sequence points strictly forward: from a
/// node created earlier to one created later.
pub proof fn lemma_edges_forward(nodes: Seq<GateType>)
    requires
        nodes_wf(nodes),
        nodes.len() <= MAX_GATES,
    ensures
        forall|k: int|
            0 <= k < edges_of(nodes).len() ==> (#[trigger] edges_of(nodes)[k]).0 < edges_of(
                nodes,
            )[k].1,
    decreases nodes.len(),
{
    if nodes.len() > 0 {
        let dl = nodes.drop_last();
        let last = nodes.last();
        let t = (nodes.len() - 1) as usize;
        lemma_nodes_wf_drop_last(nodes);
        lemma_edges_forward(dl);
        assert(node_wf(nodes, nodes.len() - 1));
        assert(nodes.take(nodes.len() - 1) =~= dl);
        assert forall|k: int| 0 <= k < edges_of(nodes).len() implies (#[trigger] edges_of(
            nodes,
        )[k]).0 < edges_of(nodes)[k].1 by {
            assert(edges_of(nodes) == edges_of(dl) + node_edges(last, t));
            if k < edges_of(dl).len() {
                assert(edges_of(nodes)[k] == edges_of(dl)[k]);
            } else {
                let k2 = k - edges_of(dl).len();
                assert(edges_of(nodes)[k] == node_edges(last, t)[k2]);
                assert(node_edges(last, t)[k2] == (
                    gate_inputs(last)[k2].producer,
                    t,
                    gate_inputs(last)[k2],
                ));
                assert(wire_in(dl, gate_inputs(nodes[nodes.len() - 1])[k2]));
            }
        }
    }
}

/// Links in a strictly ascending chain are transitively ascending.
proof fn lemma_chain_increasing(p: Seq<usize>, i: int, j: int)
    requires
        forall|k: int| 0 <= k < p.len() - 1 ==> (#[trigger] p[k]) < p[k + 1],
        0 <= i < j < p.len(),
    ensures
        p[i] < p[j],
    decreases j - i,
{
    if i + 1 < j {
        lemma_chain_increasing(p, i, j - 1);
    }
}

/// Law: the circuit is acyclic. Every edge points strictly forward, so any
/// traversal visits strictly increasing node indices and can never revisit a
/// node — in particular, none can return to its starting node.
pub proof fn lemma_acyclic(c: CircuitSpec, p: Seq<usize>)
    requires
        c.wf(),
        is_path(graph_edges(c.graph), p),
    ensures
        forall|i: int, j: int| 0 <= i < j < p.len() ==> p[i] < p[j],
        p.len() >= 2 ==> p[0] != p[p.len() - 1],
{
    let edges = graph_edges(c.graph);
    lemma_edges_forward(c.gates@);
    assert forall|k: int| 0 <= k < p.len() - 1 implies (#[trigger] p[k]) < p[k + 1] by {
        assert(edge_present(edges, p[k], p[k + 1]));
        let ke = choose|ke: int|
            0 <= ke < edges.len() && (#[trigger] edges[ke]).0 == p[k] && edges[ke].1 == p[k + 1];
        assert(edges[ke].0 < edges[ke].1);
    }
    assert forall|i: int, j: int| 0 <= i < j < p.len() implies p[i] < p[j] by {
        lemma_chain_increasing(p, i, j);
    }
}

/// Law: a circuit's whole structure is determined by its gate sequence, so
/// rebuilding an identical sequence of construction calls on a fresh circuit
/// — which appends the identical gates, as each call's contract pins — yields
/// a circuit with the same edges, the same wires and wire ids, and the same
/// counters.
pub proof fn lemma_rebuild_matches(a: CircuitSpec, b: CircuitSpec)
    requires
        a.wf(),
        b.wf(),
        a.gates@ == b.gates@,
    ensures
        graph_nodes(a.graph) == graph_nodes(b.graph),
        graph_edges(a.graph) == graph_edges(b.graph),
        a.wires@ == b.wires@,
        a.wire_count == b.wire_count,
        a.witness_wire_count == b.witness_wire_count,
        a.output_wire_count == b.output_wire_count,
{
}

} // verus!

