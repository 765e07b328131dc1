use gkr::CircuitError;
use gkr::CircuitSpec;
use gkr::GateType;
use gkr::Wire;
use petgraph::visit::EdgeRef;

#[test]
fn empty_circuit() {
    let c = CircuitSpec::new();
    assert_eq!(c.gates.len(), 0);
    assert_eq!(c.wires.len(), 0);
    assert_eq!(c.wire_count, 0);
    assert_eq!(c.witness_wire_count, 0);
    assert_eq!(c.output_wire_count, 0);
    assert!(c.edge_list().is_empty());
}

#[test]
fn five_node_scenario() {
    let mut c = CircuitSpec::new();
    let w1 = c.witness();
    let w2 = c.witness();
    let w3 = c.add_gate(w1, w2).unwrap();
    let w4 = c.mul_gate(w3, w1).unwrap();
    c.output_gate(w4).unwrap();

    assert_eq!(c.gates.len(), 5);
    assert_eq!(
        c.gates,
        vec![
            GateType::Witness(w1),
            GateType::Witness(w2),
            GateType::Add(w1, w2, w3),
            GateType::Multiply(w3, w1, w4),
            GateType::Output(w4),
        ]
    );
    assert_eq!(
        c.edge_list(),
        vec![(0, 2, w1), (1, 2, w2), (2, 3, w3), (0, 3, w1), (3, 4, w4)]
    );
    assert_eq!(c.wire_count, 4);
    assert_eq!(c.witness_wire_count, 2);
    assert_eq!(c.output_wire_count, 1);
}

#[test]
fn wire_ids_unique_and_increasing() {
    let mut c = CircuitSpec::new();
    let w1 = c.witness();
    let w2 = c.witness();
    let w3 = c.add_gate(w1, w2).unwrap();
    let w4 = c.mul_gate(w3, w2).unwrap();
    let w5 = c.witness();
    let issued = [w1, w2, w3, w4, w5];
    for (k, w) in issued.iter().enumerate() {
        assert_eq!(w.id, k);
        assert_eq!(c.wires[k], *w);
    }
}

#[test]
fn producer_resolves_to_creating_node() {
    let mut c = CircuitSpec::new();
    let w1 = c.witness();
    let w2 = c.witness();
    let w3 = c.add_gate(w1, w2).unwrap();
    assert_eq!(w1.producer, 0);
    assert_eq!(w2.producer, 1);
    assert_eq!(w3.producer, 2);
    assert_eq!(c.gates[w3.producer], GateType::Add(w1, w2, w3));
}

#[test]
fn in_edge_counts_match_arity() {
    let mut c = CircuitSpec::new();
    let w1 = c.witness();
    let w2 = c.witness();
    let w3 = c.add_gate(w1, w2).unwrap();
    c.output_gate(w3).unwrap();
    c.print(w3, "test", "label").unwrap();
    let arity_of = |g: &GateType| -> usize {
        match g {
            GateType::Witness(_) => 0,
            GateType::Add(_, _, _) | GateType::Multiply(_, _, _) => 2,
            GateType::Output(_) | GateType::Print(_, _, _) => 1,
        }
    };
    let edges = c.edge_list();
    for (i, g) in c.gates.iter().enumerate() {
        let in_count = edges.iter().filter(|e| e.1 == i).count();
        assert_eq!(in_count, arity_of(g));
    }
}

#[test]
fn edges_point_strictly_forward() {
    let mut c = CircuitSpec::new();
    let w1 = c.witness();
    let w2 = c.witness();
    let w3 = c.mul_gate(w1, w2).unwrap();
    let w4 = c.add_gate(w3, w3).unwrap();
    c.output_gate(w4).unwrap();
    for (src, tgt, _) in c.edge_list() {
        assert!(src < tgt);
    }
}

#[test]
fn rebuild_identical_sequence_matches() {
    let build = || {
        let mut c = CircuitSpec::new();
        let w1 = c.witness();
        let w2 = c.witness();
        let w3 = c.add_gate(w1, w2).unwrap();
        let w4 = c.mul_gate(w3, w1).unwrap();
        c.output_gate(w4).unwrap();
        c.print(w2, "test", "label").unwrap();
        c
    };
    let a = build();
    let b = build();
    assert_eq!(a.gates, b.gates);
    assert_eq!(a.wires, b.wires);
    assert_eq!(a.edge_list(), b.edge_list());
    assert_eq!(a.wire_count, b.wire_count);
    assert_eq!(a.witness_wire_count, b.witness_wire_count);
    assert_eq!(a.output_wire_count, b.output_wire_count);
}

#[test]
fn foreign_wire_rejected() {
    let mut a = CircuitSpec::new();
    let a1 = a.witness();
    let mut b = CircuitSpec::new();
    let _b1 = b.witness();
    let b2 = b.witness();
    // `b2` names a producing node that `a` does not have.
    assert_eq!(a.add_gate(a1, b2), Err(CircuitError::ForeignWire));
    assert_eq!(a.add_gate(b2, a1), Err(CircuitError::ForeignWire));
    assert_eq!(a.mul_gate(a1, b2), Err(CircuitError::ForeignWire));
    assert_eq!(a.output_gate(b2), Err(CircuitError::ForeignWire));
    assert_eq!(a.print(b2, "test", "label"), Err(CircuitError::ForeignWire));
    // The rejected calls left the circuit unchanged.
    assert_eq!(a.gates, vec![GateType::Witness(a1)]);
    assert_eq!(a.wire_count, 1);
    assert!(a.edge_list().is_empty());
}

#[test]
fn fabricated_wire_rejected() {
    let mut c = CircuitSpec::new();
    let w1 = c.witness();
    let fake = Wire { id: 7, producer: 0 };
    assert_eq!(c.add_gate(w1, fake), Err(CircuitError::ForeignWire));
    assert_eq!(c.output_gate(fake), Err(CircuitError::ForeignWire));
}

#[test]
fn print_stores_labels() {
    let mut c = CircuitSpec::new();
    let w1 = c.witness();
    c.print(w1, "test", "label").unwrap();
    assert_eq!(c.gates.len(), 2);
    assert_eq!(c.gates[1], GateType::Print(w1, "test", "label"));
    assert_eq!(c.edge_list(), vec![(0, 1, w1)]);
    assert_eq!(c.wire_count, 1);
    assert_eq!(c.output_wire_count, 0);
}

#[test]
fn backing_graph_matches_mirror() {
    let mut c = CircuitSpec::new();
    let w1 = c.witness();
    let w2 = c.witness();
    let w3 = c.add_gate(w1, w2).unwrap();
    c.output_gate(w3).unwrap();
    assert_eq!(c.graph.node_count(), c.gates.len());
    assert_eq!(c.graph.edge_count(), c.edge_list().len());
    for (i, g) in c.gates.iter().enumerate() {
        assert_eq!(
            c.graph.node_weight(petgraph::graph::NodeIndex::new(i)),
            Some(g)
        );
    }
    let got: Vec<(usize, usize, Wire)> = c
        .graph
        .edge_references()
        .map(|e| (e.source().index(), e.target().index(), *e.weight()))
        .collect();
    assert_eq!(got, c.edge_list());
}

#[test]
fn multiple_outputs_on_same_wire() {
    let mut c = CircuitSpec::new();
    let w1 = c.witness();
    c.output_gate(w1).unwrap();
    c.output_gate(w1).unwrap();
    assert_eq!(c.output_wire_count, 2);
    assert_eq!(c.edge_list(), vec![(0, 1, w1), (0, 2, w1)]);
}
