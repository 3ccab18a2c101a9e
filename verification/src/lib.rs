//! A small quantum circuit builder and simulator.
//!
//! A [`QuantumCircuit`] records gate operations against named qubit indices;
//! [`Qubit`] carries the state of a single qubit, kept exactly as amplitudes
//! over the ring of integers extended by the eighth root of unity, so that
//! every gate transform — and the normalization it preserves — is stated and
//! proved without any rounding.

pub mod circuit;
pub mod gate;
pub mod qubit;

pub use circuit::GateOp;
pub use circuit::QuantumCircuit;
pub use gate::QuantumGate;
pub use qubit::Amp;
pub use qubit::Qubit;
