//! The vocabulary of primitive gates a circuit can record.

use vstd::prelude::*;

verus! {

/// A primitive quantum gate.
///
/// The set is closed: every consumer matches on it exhaustively, so adding a
/// variant is a compile-time error until every transform handles it.
/// `CNOT` is the one two-qubit gate; as executed here it acts on the target
/// qubit alone (a plain bit flip) and never reads the control qubit's state.
#[derive(Clone, Copy, Debug, PartialEq, Eq, Structural)]
pub enum QuantumGate {
    /// Hadamard: equal superposition of the basis states.
    H,
    /// Pauli-X: bit flip.
    X,
    /// Pauli-Y: bit flip combined with a quarter-turn phase.
    Y,
    /// Pauli-Z: phase flip on the one-component.
    Z,
    /// Phase gate: quarter-turn phase on the one-component.
    S,
    /// T gate: eighth-turn phase on the one-component.
    T,
    /// Controlled-NOT, applied to its target qubit only.
    CNOT,
}

impl QuantumGate {
    /// The display label carried by each gate, for formatting layers.
    pub fn label(&self) -> (r: &'static str)
        ensures
            self == QuantumGate::H ==> r@ == "H"@,
            self == QuantumGate::X ==> r@ == "X"@,
            self == QuantumGate::Y ==> r@ == "Y"@,
            self == QuantumGate::Z ==> r@ == "Z"@,
            self == QuantumGate::S ==> r@ == "S"@,
            self == QuantumGate::T ==> r@ == "T"@,
            self == QuantumGate::CNOT ==> r@ == "CNOT"@,
    {
        match self {
            QuantumGate::H => "H",
            QuantumGate::X => "X",
            QuantumGate::Y => "Y",
            QuantumGate::Z => "Z",
            QuantumGate::S => "S",
            QuantumGate::T => "T",
            QuantumGate::CNOT => "CNOT",
        }
    }
}

} // verus!
