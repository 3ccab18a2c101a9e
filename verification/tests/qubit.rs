use intrico::Amp;
use intrico::Qubit;
use intrico::QuantumGate;

fn amp(w0: i64, w1: i64, w2: i64, w3: i64) -> Amp {
    Amp { w0, w1, w2, w3 }
}

fn norm_int(a: &Amp) -> i64 {
    a.w0 * a.w0 + a.w1 * a.w1 + a.w2 * a.w2 + a.w3 * a.w3
}

fn norm_rad(a: &Amp) -> i64 {
    a.w0 * a.w1 + a.w1 * a.w2 + a.w2 * a.w3 - a.w3 * a.w0
}

fn check_normalized(q: &Qubit) {
    assert_eq!(norm_int(&q.amp0) + norm_int(&q.amp1), 1i64 << q.scale);
    assert_eq!(norm_rad(&q.amp0) + norm_rad(&q.amp1), 0);
}

/// |1>: the zero state bit-flipped.
fn one() -> Qubit {
    let mut q = Qubit::zero();
    q.apply(QuantumGate::X);
    q
}

#[test]
fn zero_state_is_canonical() {
    let q = Qubit::zero();
    assert_eq!(q.amp0, amp(1, 0, 0, 0));
    assert_eq!(q.amp1, amp(0, 0, 0, 0));
    assert_eq!(q.scale, 0);
    check_normalized(&q);
}

#[test]
fn x_flips_the_basis_amplitudes() {
    let mut q = Qubit::zero();
    q.apply(QuantumGate::X);
    assert_eq!(q.amp0, amp(0, 0, 0, 0));
    assert_eq!(q.amp1, amp(1, 0, 0, 0));
    assert_eq!(q.scale, 0);
}

#[test]
fn h_builds_the_equal_superposition() {
    let mut q = Qubit::zero();
    q.apply(QuantumGate::H);
    assert_eq!(q.amp0, amp(1, 0, 0, 0));
    assert_eq!(q.amp1, amp(1, 0, 0, 0));
    assert_eq!(q.scale, 1);
    check_normalized(&q);
}

#[test]
fn y_flips_and_rotates() {
    // Y|0> = i|1>, and i is the omega-squared coefficient
    let mut q = Qubit::zero();
    q.apply(QuantumGate::Y);
    assert_eq!(q.amp0, amp(0, 0, 0, 0));
    assert_eq!(q.amp1, amp(0, 0, 1, 0));
    // Y|1> = -i|0>
    let mut p = one();
    p.apply(QuantumGate::Y);
    assert_eq!(p.amp0, amp(0, 0, -1, 0));
    assert_eq!(p.amp1, amp(0, 0, 0, 0));
}

#[test]
fn z_negates_the_one_component_only() {
    let mut q = Qubit::zero();
    q.apply(QuantumGate::Z);
    assert_eq!(q, Qubit::zero());
    let mut p = one();
    p.apply(QuantumGate::Z);
    assert_eq!(p.amp0, amp(0, 0, 0, 0));
    assert_eq!(p.amp1, amp(-1, 0, 0, 0));
}

#[test]
fn s_rotates_the_one_component_a_quarter_turn() {
    let mut p = one();
    p.apply(QuantumGate::S);
    assert_eq!(p.amp1, amp(0, 0, 1, 0));
    // four quarter turns are the identity
    p.apply(QuantumGate::S);
    p.apply(QuantumGate::S);
    p.apply(QuantumGate::S);
    assert_eq!(p, one());
}

#[test]
fn t_rotates_the_one_component_an_eighth_turn() {
    let mut p = one();
    p.apply(QuantumGate::T);
    assert_eq!(p.amp1, amp(0, 1, 0, 0));
    // two eighth turns make the quarter turn of S
    let mut twice = one();
    twice.apply(QuantumGate::T);
    twice.apply(QuantumGate::T);
    let mut via_s = one();
    via_s.apply(QuantumGate::S);
    assert_eq!(twice, via_s);
}

#[test]
fn cnot_transform_is_a_bit_flip() {
    let mut q = Qubit::zero();
    q.apply(QuantumGate::CNOT);
    let mut p = Qubit::zero();
    p.apply(QuantumGate::X);
    assert_eq!(q, p);
}

#[test]
fn normalization_survives_long_gate_sequences() {
    let gates = [
        QuantumGate::H,
        QuantumGate::T,
        QuantumGate::H,
        QuantumGate::S,
        QuantumGate::Y,
        QuantumGate::H,
        QuantumGate::T,
        QuantumGate::Z,
        QuantumGate::H,
        QuantumGate::X,
        QuantumGate::T,
        QuantumGate::H,
        QuantumGate::CNOT,
    ];
    let mut q = Qubit::zero();
    for g in gates {
        q.apply(g);
        check_normalized(&q);
    }
}

#[test]
fn hadamard_twice_scales_but_keeps_direction() {
    // H·H = identity up to the exact representation's scale bookkeeping:
    // the amplitudes double while the scale rises by two, the same state.
    let mut q = Qubit::zero();
    q.apply(QuantumGate::H);
    q.apply(QuantumGate::H);
    assert_eq!(q.amp0, amp(2, 0, 0, 0));
    assert_eq!(q.amp1, amp(0, 0, 0, 0));
    assert_eq!(q.scale, 2);
    check_normalized(&q);
}

#[test]
fn scale_cap_admits_a_long_hadamard_run() {
    // 120 Hadamards reach the scale cap exactly; each pair doubles the
    // amplitude while raising the scale by two, the same state throughout.
    let mut q = Qubit::zero();
    for _ in 0..120 {
        q.apply(QuantumGate::H);
    }
    assert_eq!(q.scale, 120);
    assert_eq!(q.amp0, amp(1i64 << 60, 0, 0, 0));
    assert_eq!(q.amp1, amp(0, 0, 0, 0));
}

#[test]
fn gate_labels() {
    assert_eq!(QuantumGate::H.label(), "H");
    assert_eq!(QuantumGate::X.label(), "X");
    assert_eq!(QuantumGate::Y.label(), "Y");
    assert_eq!(QuantumGate::Z.label(), "Z");
    assert_eq!(QuantumGate::S.label(), "S");
    assert_eq!(QuantumGate::T.label(), "T");
    assert_eq!(QuantumGate::CNOT.label(), "CNOT");
}
