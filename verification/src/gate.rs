//! The value types of the circuit: wires, gates, and the builder's error.

use vstd::prelude::*;

verus! {

/// A single circuit wire, identified by a unique, strictly increasing id
/// together with the graph node that produces it.
///
/// Two wires are equal iff both fields match. A wire is immutable once
/// created.
#[derive(Clone, Copy, Debug, PartialEq, Eq, Hash, Structural)]
pub struct Wire {
    /// The wire id, unique within one circuit and issued in increasing order.
    pub id: usize,
    /// The index of the graph node whose gate outputs this wire.
    pub producer: usize,
}

/// One gate of the circuit: a closed set of kinds, each a pure description of
/// shape with a fixed input arity and an optional produced wire.
#[derive(Clone, Copy, Debug, PartialEq, Eq)]
pub enum GateType {
    /// Introduces an externally supplied wire: no inputs, one output wire.
    Witness(Wire),
    /// Sum of two wires (left, right); the third field is the produced wire.
    Add(Wire, Wire, Wire),
    /// Product of two wires (left, right); the third field is the produced wire.
    Multiply(Wire, Wire, Wire),
    /// Marks a wire as an externally observable result: one input, no output.
    Output(Wire),
    /// Diagnostic marker: one input, no output, two static label strings.
    Print(Wire, &'static str, &'static str),
}

/// The builder's error: construction calls reject wires that the receiving
/// circuit did not issue. (A wire whose `producer` fails to resolve to the
/// node that declares it cannot arise: the builder's invariants are verified.)
#[derive(Clone, Copy, Debug, PartialEq, Eq, Structural)]
pub enum CircuitError {
    /// A wire argument was not issued by the circuit receiving the call.
    ForeignWire,
}

/// The input wires a gate consumes, in the order supplied by the caller.
pub open spec fn gate_inputs(g: GateType) -> Seq<Wire> {
    match g {
        GateType::Witness(_) => Seq::empty(),
        GateType::Add(l, r, _) => seq![l, r],
        GateType::Multiply(l, r, _) => seq![l, r],
        GateType::Output(w) => seq![w],
        GateType::Print(w, _, _) => seq![w],
    }
}

/// The wire a gate produces, if its kind produces one.
pub open spec fn gate_output(g: GateType) -> Option<Wire> {
    match g {
        GateType::Witness(w) => Some(w),
        GateType::Add(_, _, w) => Some(w),
        GateType::Multiply(_, _, w) => Some(w),
        GateType::Output(_) => None,
        GateType::Print(_, _, _) => None,
    }
}

/// The declared input arity of a gate kind.
pub open spec fn arity(g: GateType) -> nat {
    gate_inputs(g).len()
}

/// Whether a gate introduces an externally supplied wire.
pub open spec fn is_witness(g: GateType) -> bool {
    g matches GateType::Witness(_)
}

/// Whether a gate marks a wire as an externally observable result.
pub open spec fn is_output(g: GateType) -> bool {
    g matches GateType::Output(_)
}

} // verus!
