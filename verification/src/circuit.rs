//! The circuit graph: the sole mutation surface of the builder, with its
//! structural invariants.

use crate::gate::arity;
use crate::gate::gate_inputs;
use crate::gate::gate_output;
use crate::gate::is_output;
use crate::gate::is_witness;
use crate::gate::CircuitError;
use crate::gate::GateType;
use crate::gate::Wire;
use crate::graph_backend::graph_add_edge;
use crate::graph_backend::graph_add_node;
use crate::graph_backend::graph_edges;
use crate::graph_backend::graph_new;
use crate::graph_backend::graph_nodes;
use crate::graph_backend::MAX_GATES;
use vstd::prelude::*;

verus! {

/// The wires produced by a sequence of gates, in creation order.
pub open spec fn produced_wires(nodes: Seq<GateType>) -> Seq<Wire>
    decreases nodes.len(),
{
    if nodes.len() == 0 {
        Seq::empty()
    } else {
        produced_wires(nodes.drop_last()) + (match gate_output(nodes.last()) {
            Some(w) => seq![w],
            None => Seq::<Wire>::empty(),
        })
    }
}

/// The in-edges one gate contributes when inserted as node `target`: one edge
/// per input wire, sourced at the wire's producer and labeled with the wire,
/// in the order the caller supplied the inputs.
pub open spec fn node_edges(g: GateType, target: usize) -> Seq<(usize, usize, Wire)> {
    gate_inputs(g).map_values(|w: Wire| (w.producer, target, w))
}

/// The edges of the whole circuit, in insertion order: the concatenation of
/// each node's in-edges, node by node.
pub open spec fn edges_of(nodes: Seq<GateType>) -> Seq<(usize, usize, Wire)>
    decreases nodes.len(),
{
    if nodes.len() == 0 {
        Seq::empty()
    } else {
        edges_of(nodes.drop_last()) + node_edges(nodes.last(), (nodes.len() - 1) as usize)
    }
}

/// Membership of a wire in a gate sequence.
pub open spec fn wire_in(nodes: Seq<GateType>, w: Wire) -> bool {
    w.producer < nodes.len() && gate_output(nodes[w.producer as int]) == Some(w)
}

/// Well-formedness of the node at position `i`: its output wire (if any)
/// carries the node's own index and the next unissued wire id, and each of
/// its input wires was issued by a strictly earlier node.
pub open spec fn node_wf(nodes: Seq<GateType>, i: int) -> bool {
    (match gate_output(nodes[i]) {
        Some(w) => w.producer == i && w.id == produced_wires(nodes.take(i)).len(),
        None => true,
    }) && (forall|k: int|
        0 <= k < gate_inputs(nodes[i]).len() ==> wire_in(
            nodes.take(i),
            #[trigger] gate_inputs(nodes[i])[k],
        ))
}

/// Well-formedness of a whole gate sequence.
pub open spec fn nodes_wf(nodes: Seq<GateType>) -> bool {
    forall|i: int| 0 <= i < nodes.len() ==> #[trigger] node_wf(nodes, i)
}

/// How many gates of the sequence introduce a witness wire.
pub open spec fn witness_count(nodes: Seq<GateType>) -> nat
    decreases nodes.len(),
{
    if nodes.len() == 0 {
        0
    } else {
        witness_count(nodes.drop_last()) + if is_witness(nodes.last()) {
            1nat
        } else {
            0nat
        }
    }
}

/// How many gates of the sequence mark a wire as an output.
pub open spec fn output_count(nodes: Seq<GateType>) -> nat
    decreases nodes.len(),
{
    if nodes.len() == 0 {
        0
    } else {
        output_count(nodes.drop_last()) + if is_output(nodes.last()) {
            1nat
        } else {
            0nat
        }
    }
}

/// A gate sequence issues at most one wire per gate.
pub proof fn lemma_produced_len(nodes: Seq<GateType>)
    ensures
        produced_wires(nodes).len() <= nodes.len(),
    decreases nodes.len(),
{
    if nodes.len() > 0 {
        lemma_produced_len(nodes.drop_last());
    }
}

/// Neither tally can outgrow the sequence it is taken over.
pub proof fn lemma_count_bounds(nodes: Seq<GateType>)
    ensures
        witness_count(nodes) <= nodes.len(),
        output_count(nodes) <= nodes.len(),
    decreases nodes.len(),
{
    if nodes.len() > 0 {
        lemma_count_bounds(nodes.drop_last());
    }
}

/// A gate sequence contributes at most two edges per gate.
pub proof fn lemma_edges_len(nodes: Seq<GateType>)
    ensures
        edges_of(nodes).len() <= 2 * nodes.len(),
    decreases nodes.len(),
{
    if nodes.len() > 0 {
        lemma_edges_len(nodes.drop_last());
        assert(arity(nodes.last()) <= 2);
    }
}

/// How appending one gate changes each derived view of the sequence.
pub proof fn lemma_append_node(g0: Seq<GateType>, gate: GateType)
    ensures
        produced_wires(g0.push(gate)) == (match gate_output(gate) {
            Some(w) => produced_wires(g0).push(w),
            None => produced_wires(g0),
        }),
        edges_of(g0.push(gate)) == edges_of(g0) + node_edges(gate, g0.len() as usize),
        witness_count(g0.push(gate)) == witness_count(g0) + (if is_witness(gate) {
            1nat
        } else {
            0nat
        }),
        output_count(g0.push(gate)) == output_count(g0) + (if is_output(gate) {
            1nat
        } else {
            0nat
        }),
{
    let g1 = g0.push(gate);
    assert(g1.drop_last() =~= g0);
    assert(g1.last() == gate);
    match gate_output(gate) {
        Some(w) => {
            assert(produced_wires(g1) =~= produced_wires(g0).push(w));
        },
        None => {
            assert(produced_wires(g1) =~= produced_wires(g0));
        },
    }
}

/// Appending a gate keeps every earlier node well formed: a node's
/// well-formedness depends only on the prefix before it.
pub proof fn lemma_nodes_wf_push(g0: Seq<GateType>, gate: GateType)
    requires
        nodes_wf(g0),
        node_wf(g0.push(gate), g0.len() as int),
    ensures
        nodes_wf(g0.push(gate)),
{
    let g1 = g0.push(gate);
    assert forall|i: int| 0 <= i < g1.len() implies #[trigger] node_wf(g1, i) by {
        if i < g0.len() {
            assert(node_wf(g0, i));
            assert(g1.take(i) =~= g0.take(i));
            assert(g1[i] == g0[i]);
            assert forall|k: int| 0 <= k < gate_inputs(g1[i]).len() implies wire_in(
                g1.take(i),
                #[trigger] gate_inputs(g1[i])[k],
            ) by {
                assert(wire_in(g0.take(i), gate_inputs(g0[i])[k]));
            }
        }
    }
}

/// Dropping the last gate keeps every remaining node well formed.
pub proof fn lemma_nodes_wf_drop_last(nodes: Seq<GateType>)
    requires
        nodes_wf(nodes),
        nodes.len() > 0,
    ensures
        nodes_wf(nodes.drop_last()),
{
    let dl = nodes.drop_last();
    assert forall|i: int| 0 <= i < dl.len() implies #[trigger] node_wf(dl, i) by {
        assert(node_wf(nodes, i));
        assert(dl.take(i) =~= nodes.take(i));
        assert(dl[i] == nodes[i]);
        assert forall|k: int| 0 <= k < gate_inputs(dl[i]).len() implies wire_in(
            dl.take(i),
            #[trigger] gate_inputs(dl[i])[k],
        ) by {
            assert(wire_in(nodes.take(i), gate_inputs(nodes[i])[k]));
        }
    }
}

/// The wire side table: in a well-formed gate sequence the k-th issued wire
/// carries id `k` and resolves to its producing node, and conversely a wire
/// the sequence issued stands in the table at its own id.
pub proof fn lemma_wire_table(nodes: Seq<GateType>)
    requires
        nodes_wf(nodes),
    ensures
        forall|k: int|
            0 <= k < produced_wires(nodes).len() ==> (#[trigger] produced_wires(nodes)[k]).id
                == k,
        forall|k: int|
            0 <= k < produced_wires(nodes).len() ==> wire_in(
                nodes,
                #[trigger] produced_wires(nodes)[k],
            ),
        forall|w: Wire|
            #[trigger] wire_in(nodes, w) ==> w.id < produced_wires(nodes).len()
                && produced_wires(nodes)[w.id as int] == w,
    decreases nodes.len(),
{
    if nodes.len() > 0 {
        let dl = nodes.drop_last();
        let last = nodes.last();
        lemma_nodes_wf_drop_last(nodes);
        lemma_wire_table(dl);
        assert(node_wf(nodes, nodes.len() - 1));
        assert(nodes.take(nodes.len() - 1) =~= dl);
        assert forall|w: Wire| #[trigger] wire_in(dl, w) implies wire_in(nodes, w) by {
            assert(nodes[w.producer as int] == dl[w.producer as int]);
        }
        assert forall|w: Wire| #[trigger] wire_in(nodes, w) implies w.id < produced_wires(
            nodes,
        ).len() && produced_wires(nodes)[w.id as int] == w by {
            if w.producer < dl.len() {
                assert(wire_in(dl, w));
            }
        }
    }
}

/// The circuit under construction: a directed acyclic graph of gate nodes and
/// wire-labeled edges, grown strictly by append.
///
/// The petgraph structure in `graph` is the circuit itself; `gates` mirrors
/// its node sequence in verified form, and `wires` is a side table of every
/// issued wire, keyed by wire id. The well-formedness predicate `wf` ties the
/// three together and holds after every construction call.
pub struct CircuitSpec {
    /// The underlying directed graph: one gate per node, one edge per gate
    /// input, labeled with the wire it carries.
    pub graph: petgraph::graph::Graph<GateType, Wire, petgraph::Directed, u32>,
    /// One gate per node, kept in step with the graph.
    pub gates: Vec<GateType>,
    /// Every wire the circuit has issued, keyed by wire id.
    pub wires: Vec<Wire>,
    /// How many witness gates the circuit holds.
    pub witness_wire_count: usize,
    /// How many output gates the circuit holds.
    pub output_wire_count: usize,
    /// How many wires the circuit has issued.
    pub wire_count: usize,
}

impl CircuitSpec {
    /// The structural invariants of the circuit, established by `new` and
    /// preserved by every construction call.
    pub open spec fn wf(self) -> bool {
        &&& nodes_wf(self.gates@)
        &&& self.gates@.len() <= MAX_GATES
        &&& graph_nodes(self.graph) == self.gates@
        &&& graph_edges(self.graph) == edges_of(self.gates@)
        &&& self.wires@ == produced_wires(self.gates@)
        &&& self.wire_count == self.wires@.len()
        &&& self.witness_wire_count == witness_count(self.gates@)
        &&& self.output_wire_count == output_count(self.gates@)
    }

    /// Whether this circuit issued the wire `w`.
    pub open spec fn owns(self, w: Wire) -> bool {
        wire_in(self.gates@, w)
    }

    /// Creates an empty circuit: no nodes, no edges, no wires issued.
    pub fn new() -> (c: CircuitSpec)
        ensures
            c.wf(),
            c.gates@ == Seq::<GateType>::empty(),
            c.wires@ == Seq::<Wire>::empty(),
            c.wire_count == 0,
            c.witness_wire_count == 0,
            c.output_wire_count == 0,
    {
        let c = CircuitSpec {
            graph: graph_new(),
            gates: Vec::new(),
            wires: Vec::new(),
            witness_wire_count: 0,
            output_wire_count: 0,
            wire_count: 0,
        };
        c
    }

    /// Allocates a new wire id and inserts a `Witness` node with that wire as
    /// its sole output; returns the wire.
    pub fn witness(&mut self) -> (w: Wire)
        requires
            old(self).wf(),
            old(self).gates@.len() < MAX_GATES,
        ensures
            final(self).wf(),
            w.id == old(self).wire_count,
            w.producer == old(self).gates@.len(),
            final(self).gates@ == old(self).gates@.push(GateType::Witness(w)),
            final(self).wires@ == old(self).wires@.push(w),
            final(self).wire_count == old(self).wire_count + 1,
            final(self).witness_wire_count == old(self).witness_wire_count + 1,
            final(self).output_wire_count == old(self).output_wire_count,
            final(self).owns(w),
    {
        proof {
            lemma_produced_len(self.gates@);
            lemma_count_bounds(self.gates@);
        }
        let id = self.wire_count;
        let producer = self.gates.len();
        let w = Wire { id, producer };
        let gate = GateType::Witness(w);
        let _ = graph_add_node(&mut self.graph, gate);
        self.gates.push(gate);
        self.wires.push(w);
        self.wire_count = self.wire_count + 1;
        self.witness_wire_count = self.witness_wire_count + 1;
        proof {
            let g0 = old(self).gates@;
            let g1 = self.gates@;
            lemma_append_node(g0, gate);
            assert(g0.push(gate).take(g0.len() as int) =~= g0);
            assert(node_wf(g1, g0.len() as int));
            lemma_nodes_wf_push(g0, gate);
            assert(node_edges(gate, g0.len() as usize) =~= Seq::<(usize, usize, Wire)>::empty());
            assert(edges_of(g1) =~= edges_of(g0));
        }
        w
    }

    /// Whether this circuit issued the wire `w`: its producer resolves to an
    /// existing node that declares exactly this wire as its output.
    pub fn contains_wire(&self, w: Wire) -> (r: bool)
        requires
            self.wf(),
        ensures
            r == self.owns(w),
    {
        proof {
            lemma_wire_table(self.gates@);
        }
        w.id < self.wires.len() && self.wires[w.id] == w
    }

    /// Inserts one two-input gate (`Add` or `Multiply`) consuming `left` then
    /// `right`, with a freshly issued output wire; returns that wire.
    fn push_binary(&mut self, left: Wire, right: Wire, mul: bool) -> (w: Wire)
        requires
            old(self).wf(),
            old(self).gates@.len() < MAX_GATES,
            old(self).owns(left),
            old(self).owns(right),
        ensures
            final(self).wf(),
            w.id == old(self).wire_count,
            w.producer == old(self).gates@.len(),
            final(self).gates@ == old(self).gates@.push(
                if mul {
                    GateType::Multiply(left, right, w)
                } else {
                    GateType::Add(left, right, w)
                },
            ),
            final(self).wires@ == old(self).wires@.push(w),
            final(self).wire_count == old(self).wire_count + 1,
            final(self).witness_wire_count == old(self).witness_wire_count,
            final(self).output_wire_count == old(self).output_wire_count,
            final(self).owns(w),
    {
        proof {
            lemma_produced_len(self.gates@);
            lemma_edges_len(self.gates@);
        }
        let id = self.wire_count;
        let producer = self.gates.len();
        let w = Wire { id, producer };
        let gate = if mul {
            GateType::Multiply(left, right, w)
        } else {
            GateType::Add(left, right, w)
        };
        let idx = graph_add_node(&mut self.graph, gate);
        graph_add_edge(&mut self.graph, left.producer, idx, left);
        graph_add_edge(&mut self.graph, right.producer, idx, right);
        self.gates.push(gate);
        self.wires.push(w);
        self.wire_count = self.wire_count + 1;
        proof {
            let g0 = old(self).gates@;
            let g1 = self.gates@;
            lemma_append_node(g0, gate);
            assert(g0.push(gate).take(g0.len() as int) =~= g0);
            assert(gate_inputs(gate) == seq![left, right]);
            assert(node_edges(gate, producer) =~= seq![
                (left.producer, producer, left),
                (right.producer, producer, right),
            ]);
            assert(edges_of(g1) =~= edges_of(g0).push((left.producer, producer, left)).push(
                (right.producer, producer, right),
            ));
            assert forall|k: int| 0 <= k < gate_inputs(g1[g0.len() as int]).len() implies wire_in(
                g1.take(g0.len() as int),
                #[trigger] gate_inputs(g1[g0.len() as int])[k],
            ) by {
                if k == 0 {
                    assert(gate_inputs(gate)[0] == left);
                } else {
                    assert(gate_inputs(gate)[1] == right);
                }
            }
            assert(node_wf(g1, g0.len() as int));
            lemma_nodes_wf_push(g0, gate);
        }
        w
    }

    /// Inserts an `Add` node consuming `left` then `right` and returns its
    /// freshly issued output wire; rejects a wire this circuit did not issue,
    /// leaving the circuit unchanged.
    pub fn add_gate(&mut self, left: Wire, right: Wire) -> (r: Result<Wire, CircuitError>)
        requires
            old(self).wf(),
            old(self).gates@.len() < MAX_GATES,
        ensures
            final(self).wf(),
            old(self).owns(left) && old(self).owns(right) ==> (r matches Ok(w) && {
                &&& w.id == old(self).wire_count
                &&& w.producer == old(self).gates@.len()
                &&& final(self).gates@ == old(self).gates@.push(GateType::Add(left, right, w))
                &&& final(self).wires@ == old(self).wires@.push(w)
                &&& final(self).wire_count == old(self).wire_count + 1
                &&& final(self).owns(w)
            }),
            !(old(self).owns(left) && old(self).owns(right)) ==> (r == Err::<Wire, CircuitError>(
                CircuitError::ForeignWire,
            ) && *final(self) == *old(self)),
            final(self).witness_wire_count == old(self).witness_wire_count,
            final(self).output_wire_count == old(self).output_wire_count,
    {
        if !self.contains_wire(left) || !self.contains_wire(right) {
            return Err(CircuitError::ForeignWire);
        }
        Ok(self.push_binary(left, right, false))
    }

    /// Inserts a `Multiply` node consuming `left` then `right` and returns its
    /// freshly issued output wire; rejects a wire this circuit did not issue,
    /// leaving the circuit unchanged.
    pub fn mul_gate(&mut self, left: Wire, right: Wire) -> (r: Result<Wire, CircuitError>)
        requires
            old(self).wf(),
            old(self).gates@.len() < MAX_GATES,
        ensures
            final(self).wf(),
            old(self).owns(left) && old(self).owns(right) ==> (r matches Ok(w) && {
                &&& w.id == old(self).wire_count
                &&& w.producer == old(self).gates@.len()
                &&& final(self).gates@ == old(self).gates@.push(
                    GateType::Multiply(left, right, w),
                )
                &&& final(self).wires@ == old(self).wires@.push(w)
                &&& final(self).wire_count == old(self).wire_count + 1
                &&& final(self).owns(w)
            }),
            !(old(self).owns(left) && old(self).owns(right)) ==> (r == Err::<Wire, CircuitError>(
                CircuitError::ForeignWire,
            ) && *final(self) == *old(self)),
            final(self).witness_wire_count == old(self).witness_wire_count,
            final(self).output_wire_count == old(self).output_wire_count,
    {
        if !self.contains_wire(left) || !self.contains_wire(right) {
            return Err(CircuitError::ForeignWire);
        }
        Ok(self.push_binary(left, right, true))
    }

    /// Inserts one one-input gate that produces no wire (`Output` or `Print`),
    /// consuming `input`.
    fn push_sink(&mut self, input: Wire, gate: GateType)
        requires
            old(self).wf(),
            old(self).gates@.len() < MAX_GATES,
            old(self).owns(input),
            gate_inputs(gate) == seq![input],
            gate_output(gate) is None,
        ensures
            final(self).wf(),
            final(self).gates@ == old(self).gates@.push(gate),
            final(self).wires@ == old(self).wires@,
            final(self).wire_count == old(self).wire_count,
            final(self).witness_wire_count == old(self).witness_wire_count + (if is_witness(gate) {
                1int
            } else {
                0int
            }),
            final(self).output_wire_count == old(self).output_wire_count + (if is_output(gate) {
                1int
            } else {
                0int
            }),
    {
        proof {
            lemma_edges_len(self.gates@);
            lemma_count_bounds(self.gates@);
        }
        let idx = graph_add_node(&mut self.graph, gate);
        graph_add_edge(&mut self.graph, input.producer, idx, input);
        self.gates.push(gate);
        if matches!(gate, GateType::Output(_)) {
            self.output_wire_count = self.output_wire_count + 1;
        }
        if matches!(gate, GateType::Witness(_)) {
            self.witness_wire_count = self.witness_wire_count + 1;
        }
        proof {
            let g0 = old(self).gates@;
            let g1 = self.gates@;
            lemma_append_node(g0, gate);
            assert(g0.push(gate).take(g0.len() as int) =~= g0);
            assert(node_edges(gate, g0.len() as usize) =~= seq![
                (input.producer, g0.len() as usize, input),
            ]);
            assert(edges_of(g1) =~= edges_of(g0).push((input.producer, g0.len() as usize, input)));
            assert(produced_wires(g1) =~= produced_wires(g0));
            assert forall|k: int| 0 <= k < gate_inputs(g1[g0.len() as int]).len() implies wire_in(
                g1.take(g0.len() as int),
                #[trigger] gate_inputs(g1[g0.len() as int])[k],
            ) by {
                assert(gate_inputs(gate)[0] == input);
            }
            assert(node_wf(g1, g0.len() as int));
            lemma_nodes_wf_push(g0, gate);
        }
    }

    /// Inserts an `Output` node marking `input` as an externally observable
    /// result; rejects a wire this circuit did not issue, leaving the circuit
    /// unchanged.
    pub fn output_gate(&mut self, input: Wire) -> (r: Result<(), CircuitError>)
        requires
            old(self).wf(),
            old(self).gates@.len() < MAX_GATES,
        ensures
            final(self).wf(),
            old(self).owns(input) ==> (r is Ok && final(self).gates@ == old(self).gates@.push(
                GateType::Output(input),
            ) && final(self).output_wire_count == old(self).output_wire_count + 1),
            !old(self).owns(input) ==> (r == Err::<(), CircuitError>(CircuitError::ForeignWire)
                && *final(self) == *old(self)),
            final(self).wires@ == old(self).wires@,
            final(self).wire_count == old(self).wire_count,
            final(self).witness_wire_count == old(self).witness_wire_count,
    {
        if !self.contains_wire(input) {
            return Err(CircuitError::ForeignWire);
        }
        self.push_sink(input, GateType::Output(input));
        Ok(())
    }

    /// Inserts a `Print` node consuming `input` and carrying two caller
    /// supplied diagnostic labels; rejects a wire this circuit did not issue,
    /// leaving the circuit unchanged.
    pub fn print(&mut self, input: Wire, label_1: &'static str, label_2: &'static str) -> (r:
        Result<(), CircuitError>)
        requires
            old(self).wf(),
            old(self).gates@.len() < MAX_GATES,
        ensures
            final(self).wf(),
            old(self).owns(input) ==> (r is Ok && final(self).gates@ == old(self).gates@.push(
                GateType::Print(input, label_1, label_2),
            )),
            !old(self).owns(input) ==> (r == Err::<(), CircuitError>(CircuitError::ForeignWire)
                && *final(self) == *old(self)),
            final(self).wires@ == old(self).wires@,
            final(self).wire_count == old(self).wire_count,
            final(self).witness_wire_count == old(self).witness_wire_count,
            final(self).output_wire_count == old(self).output_wire_count,
    {
        if !self.contains_wire(input) {
            return Err(CircuitError::ForeignWire);
        }
        self.push_sink(input, GateType::Print(input, label_1, label_2));
        Ok(())
    }

    /// The circuit's edges as (source node, target node, wire label) triples,
    /// in insertion order: exactly the edges the underlying graph holds.
    pub fn edge_list(&self) -> (out: Vec<(usize, usize, Wire)>)
        requires
            self.wf(),
        ensures
            out@ == edges_of(self.gates@),
            out@ == graph_edges(self.graph),
    {
        let mut out: Vec<(usize, usize, Wire)> = Vec::new();
        let n = self.gates.len();
        let mut i: usize = 0;
        proof {
            assert(self.gates@.take(0) =~= Seq::<GateType>::empty());
        }
        while i < n
            invariant
                self.wf(),
                i <= n,
                n == self.gates@.len(),
                out@ == edges_of(self.gates@.take(i as int)),
            decreases n - i,
        {
            let gate = self.gates[i];
            match gate {
                GateType::Witness(_) => {},
                GateType::Add(l, r, _) => {
                    out.push((l.producer, i, l));
                    out.push((r.producer, i, r));
                },
                GateType::Multiply(l, r, _) => {
                    out.push((l.producer, i, l));
                    out.push((r.producer, i, r));
                },
                GateType::Output(w) => {
                    out.push((w.producer, i, w));
                },
                GateType::Print(w, _, _) => {
                    out.push((w.producer, i, w));
                },
            }
            proof {
                let g = self.gates@;
                assert(g.take(i as int + 1) =~= g.take(i as int).push(g[i as int]));
                lemma_append_node(g.take(i as int), g[i as int]);
                assert(node_edges(g[i as int], i) =~= (match g[i as int] {
                    GateType::Witness(_) => Seq::<(usize, usize, Wire)>::empty(),
                    GateType::Add(l, r, _) => seq![(l.producer, i, l), (r.producer, i, r)],
                    GateType::Multiply(l, r, _) => seq![(l.producer, i, l), (r.producer, i, r)],
                    GateType::Output(w) => seq![(w.producer, i, w)],
                    GateType::Print(w, _, _) => seq![(w.producer, i, w)],
                }));
                assert(out@ =~= edges_of(g.take(i as int + 1)));
            }
            i = i + 1;
        }
        proof {
            assert(self.gates@.take(n as int) =~= self.gates@);
        }
        out
    }
}

} // verus!
