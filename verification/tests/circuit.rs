use intrico::QuantumCircuit;
use intrico::Qubit;
use intrico::QuantumGate;

#[test]
fn new_circuit_is_empty() {
    let qc = QuantumCircuit::new(3);
    assert_eq!(qc.num_qubits(), 3);
    assert_eq!(qc.num_operations(), 0);
}

#[test]
fn builder_records_operations_in_call_order() {
    let mut qc = QuantumCircuit::new(2);
    qc.h(0);
    qc.x(1);
    qc.cnot(0, 1);
    assert_eq!(qc.num_operations(), 3);

    let op0 = qc.operation(0);
    assert_eq!(op0.gate, QuantumGate::H);
    assert_eq!(op0.target, 0);
    assert_eq!(op0.control, None);

    let op1 = qc.operation(1);
    assert_eq!(op1.gate, QuantumGate::X);
    assert_eq!(op1.target, 1);

    let op2 = qc.operation(2);
    assert_eq!(op2.gate, QuantumGate::CNOT);
    assert_eq!(op2.target, 1);
    assert_eq!(op2.control, Some(0));

    for i in 0..qc.num_operations() {
        let op = qc.operation(i);
        assert!(op.target < qc.num_qubits());
        if let Some(c) = op.control {
            assert!(c < qc.num_qubits());
        }
    }
}

#[test]
fn steps_count_per_target_not_globally() {
    let mut qc = QuantumCircuit::new(2);
    qc.h(0);
    qc.h(1);
    qc.x(0);
    qc.z(1);
    qc.s(0);
    // target 0 timeline: ops 0, 2, 4 at steps 0, 1, 2
    assert_eq!(qc.operation(0).step, 0);
    assert_eq!(qc.operation(2).step, 1);
    assert_eq!(qc.operation(4).step, 2);
    // target 1 timeline: ops 1, 3 at steps 0, 1
    assert_eq!(qc.operation(1).step, 0);
    assert_eq!(qc.operation(3).step, 1);
}

#[test]
fn cnot_takes_a_step_on_its_target_only() {
    let mut qc = QuantumCircuit::new(2);
    qc.cnot(0, 1);
    qc.h(0);
    qc.h(1);
    // the CNOT consumed step 0 of target 1, none of control 0
    assert_eq!(qc.operation(0).step, 0);
    assert_eq!(qc.operation(1).step, 0);
    assert_eq!(qc.operation(2).step, 1);
}

#[test]
fn two_gate_scenario_on_one_qubit() {
    let mut qc = QuantumCircuit::new(1);
    qc.h(0);
    qc.x(0);
    assert_eq!(qc.num_operations(), 2);
    assert_eq!(qc.operation(0).step, 0);
    assert_eq!(qc.operation(1).step, 1);

    let mut qs = vec![Qubit::zero()];
    qc.execute(&mut qs);
    // H then X on |0>: both amplitudes 1, one power of sqrt(2) in the denominator
    let expected = {
        let mut q = Qubit::zero();
        q.apply(QuantumGate::H);
        q.apply(QuantumGate::X);
        q
    };
    assert_eq!(qs[0], expected);
    assert_eq!(qs[0].amp0.w0, 1);
    assert_eq!(qs[0].amp1.w0, 1);
    assert_eq!(qs[0].scale, 1);
}

#[test]
fn example_program_scenario() {
    let mut qc = QuantumCircuit::new(3);
    qc.h(0);
    qc.x(0);
    qc.x(1);
    qc.y(1);
    qc.z(1);
    qc.cnot(1, 2);
    qc.z(2);
    qc.cnot(2, 0);
    qc.x(0);
    assert_eq!(qc.num_operations(), 9);

    // target 0: four entries (two direct, one via cnot(2,0), one more direct)
    let steps0: Vec<usize> = (0..9)
        .map(|i| qc.operation(i))
        .filter(|op| op.target == 0)
        .map(|op| op.step)
        .collect();
    assert_eq!(steps0, vec![0, 1, 2, 3]);

    // target 1: three direct entries
    let steps1: Vec<usize> = (0..9)
        .map(|i| qc.operation(i))
        .filter(|op| op.target == 1)
        .map(|op| op.step)
        .collect();
    assert_eq!(steps1, vec![0, 1, 2]);

    // target 2: one via cnot(1,2), one direct
    let steps2: Vec<usize> = (0..9)
        .map(|i| qc.operation(i))
        .filter(|op| op.target == 2)
        .map(|op| op.step)
        .collect();
    assert_eq!(steps2, vec![0, 1]);

    let mut qs = vec![Qubit::zero(), Qubit::zero(), Qubit::zero()];
    qc.execute(&mut qs);
    for q in &qs {
        assert_normalized(q);
    }
}

#[test]
fn empty_circuit_execution_changes_nothing() {
    let qc = QuantumCircuit::new(2);
    // one untouched state and one that has been moved off |0>
    let mut moved = Qubit::zero();
    moved.apply(QuantumGate::H);
    moved.apply(QuantumGate::T);
    let mut qs = vec![Qubit::zero(), moved];
    let before = qs.clone();
    qc.execute(&mut qs);
    assert_eq!(qs, before);
}

#[test]
fn zero_qubit_circuit_executes_trivially() {
    let qc = QuantumCircuit::new(0);
    assert_eq!(qc.num_qubits(), 0);
    let mut qs: Vec<Qubit> = vec![];
    qc.execute(&mut qs);
    assert!(qs.is_empty());
}

#[test]
fn execution_is_deterministic() {
    let mut qc = QuantumCircuit::new(2);
    qc.h(0);
    qc.t(0);
    qc.h(0);
    qc.y(1);
    qc.cnot(0, 1);
    qc.s(1);

    let mut first = vec![Qubit::zero(), Qubit::zero()];
    let mut second = vec![Qubit::zero(), Qubit::zero()];
    qc.execute(&mut first);
    qc.execute(&mut second);
    assert_eq!(first, second);
}

#[test]
fn cnot_executes_as_bit_flip_on_target_alone() {
    let mut qc = QuantumCircuit::new(2);
    qc.cnot(0, 1);
    let mut qs = vec![Qubit::zero(), Qubit::zero()];
    qc.execute(&mut qs);
    // control untouched, target flipped to |1> although the control is |0>
    assert_eq!(qs[0], Qubit::zero());
    assert_eq!(qs[1].amp0.w0, 0);
    assert_eq!(qs[1].amp1.w0, 1);
    assert_eq!(qs[1].scale, 0);
}

#[test]
fn execute_can_be_interleaved_with_building() {
    let mut qc = QuantumCircuit::new(1);
    qc.x(0);
    let mut qs = vec![Qubit::zero()];
    qc.execute(&mut qs);
    assert_eq!(qs[0].amp1.w0, 1);
    qc.x(0);
    let mut again = vec![Qubit::zero()];
    qc.execute(&mut again);
    // two bit flips cancel
    assert_eq!(again[0], Qubit::zero());
}

fn assert_normalized(q: &Qubit) {
    let ni = |a: &intrico::Amp| a.w0 * a.w0 + a.w1 * a.w1 + a.w2 * a.w2 + a.w3 * a.w3;
    let nr = |a: &intrico::Amp| a.w0 * a.w1 + a.w1 * a.w2 + a.w2 * a.w3 - a.w3 * a.w0;
    assert_eq!(ni(&q.amp0) + ni(&q.amp1), 1i64 << q.scale);
    assert_eq!(nr(&q.amp0) + nr(&q.amp1), 0);
}
