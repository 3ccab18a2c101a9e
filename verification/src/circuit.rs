//! Circuit building, per-target step assignment, and execution.

use vstd::pervasive::VecAdditionalExecFns;
use vstd::prelude::*;

use crate::gate::QuantumGate;
use crate::qubit::QubitV;
use crate::qubit::Qubit;
use crate::qubit::SCALE_CAP;
use crate::qubit::gate_transform;
use crate::qubit::is_normalized;
use crate::qubit::lemma_transform_preserves_normalization;
use crate::qubit::zero_state;

verus! {

/// One recorded gate application: a gate, the qubit it transforms, the
/// control qubit for a controlled gate (informational only — execution
/// never reads it), and the operation's position on its target's own
/// timeline.
#[derive(Clone, Copy, Debug)]
pub struct GateOp {
    /// Which gate to apply.
    pub gate: QuantumGate,
    /// The qubit whose state this operation transforms.
    pub target: usize,
    /// The control qubit, present only for controlled gates.
    pub control: Option<usize>,
    /// Position within the target qubit's own timeline, counted from zero.
    pub step: usize,
}

impl GateOp {
    /// A single-qubit operation: no control.
    pub fn new(gate: QuantumGate, target: usize, step: usize) -> (op: GateOp)
        ensures
            op == (GateOp { gate, target, control: None, step }),
    {
        GateOp { gate, target, control: None, step }
    }

    /// A controlled operation.
    pub fn controlled(gate: QuantumGate, control: usize, target: usize, step: usize) -> (op: GateOp)
        ensures
            op == (GateOp { gate, target, control: Some(control), step }),
    {
        GateOp { gate, target, control: Some(control), step }
    }
}

/// How many of the first `upto` operations target qubit `t`.
pub open spec fn count_ops_on(ops: Seq<GateOp>, t: int, upto: int) -> int
    decreases upto,
{
    if upto <= 0 {
        0
    } else {
        count_ops_on(ops, t, upto - 1) + if ops[upto - 1].target as int == t {
            1int
        } else {
            0int
        }
    }
}

/// The step the next operation on target `t` receives: one past the last
/// step already taken on `t`, which equals the number of operations already
/// recorded against `t`.
pub open spec fn next_step(ops: Seq<GateOp>, t: int) -> int {
    count_ops_on(ops, t, ops.len() as int)
}

/// How many of the first `upto` operations are Hadamard gates on target `t`.
/// Only these raise the target state's scale exponent during execution.
pub open spec fn count_h_on(ops: Seq<GateOp>, t: int, upto: int) -> int
    decreases upto,
{
    if upto <= 0 {
        0
    } else {
        count_h_on(ops, t, upto - 1) + if ops[upto - 1].target as int == t
            && ops[upto - 1].gate == QuantumGate::H {
            1int
        } else {
            0int
        }
    }
}

/// The mathematical values of a sequence of qubit states.
pub open spec fn views_of(qs: Seq<Qubit>) -> Seq<QubitV> {
    qs.map_values(|q: Qubit| q@)
}

/// The states after replaying the first `n` operations, in append order,
/// against the initial states: each operation transforms the entry at its
/// target index and nothing else.
pub open spec fn run_ops_prefix(ops: Seq<GateOp>, init: Seq<QubitV>, n: int) -> Seq<QubitV>
    decreases n,
{
    if n <= 0 {
        init
    } else {
        let prev = run_ops_prefix(ops, init, n - 1);
        let op = ops[n - 1];
        prev.update(op.target as int, gate_transform(op.gate, prev[op.target as int]))
    }
}

/// The states after replaying the whole operation list.
pub open spec fn run_ops(ops: Seq<GateOp>, init: Seq<QubitV>) -> Seq<QubitV> {
    run_ops_prefix(ops, init, ops.len() as int)
}

/// The machine limit on execution: no qubit's scale exponent may be driven
/// past [`SCALE_CAP`], and each Hadamard on a target raises it by one.
pub open spec fn h_budget_ok(ops: Seq<GateOp>, init: Seq<QubitV>) -> bool {
    forall|t: int|
        0 <= t < init.len() ==> (#[trigger] init[t]).scale + count_h_on(ops, t, ops.len() as int)
            <= SCALE_CAP
}

/// A quantum circuit: a fixed qubit count and an append-only, insertion-ordered
/// list of recorded operations.
pub struct QuantumCircuit {
    /// The number of qubits in the circuit.
    num_qubits: usize,
    /// The sequence of gate operations to apply.
    operations: Vec<GateOp>,
}

impl QuantumCircuit {
    /// The circuit's qubit count, as a mathematical value.
    pub closed spec fn spec_num_qubits(self) -> int {
        self.num_qubits as int
    }

    /// The recorded operations, as a mathematical sequence.
    pub closed spec fn ops(self) -> Seq<GateOp> {
        self.operations@
    }

    /// The circuit's invariant: every recorded operation addresses qubits
    /// below the circuit's count, and carries as its step exactly the number
    /// of operations recorded earlier against the same target — so each
    /// target's steps read 0, 1, 2, … in append order.
    pub open spec fn wf(self) -> bool {
        &&& forall|i: int|
            0 <= i < self.ops().len() ==> (#[trigger] self.ops()[i]).target
                < self.spec_num_qubits()
        &&& forall|i: int|
            0 <= i < self.ops().len() ==> ((#[trigger] self.ops()[i]).control matches Some(c)
                ==> c < self.spec_num_qubits())
        &&& forall|i: int|
            0 <= i < self.ops().len() ==> (#[trigger] self.ops()[i]).step == count_ops_on(
                self.ops(),
                self.ops()[i].target as int,
                i,
            )
    }

    /// Creates an empty circuit over exactly `num_qubits` qubits, indexed
    /// from zero. A count of zero is legal; every builder call is then out
    /// of bounds.
    pub fn new(num_qubits: usize) -> (c: QuantumCircuit)
        ensures
            c.wf(),
            c.spec_num_qubits() == num_qubits,
            c.ops().len() == 0,
    {
        QuantumCircuit { num_qubits, operations: Vec::new() }
    }

    /// The number of qubits in the circuit.
    pub fn num_qubits(&self) -> (n: usize)
        ensures
            n as int == self.spec_num_qubits(),
    {
        self.num_qubits
    }

    /// The number of recorded operations.
    pub fn num_operations(&self) -> (n: usize)
        ensures
            n as int == self.ops().len(),
    {
        self.operations.len()
    }

    /// The recorded operation at `index`, in append order.
    pub fn operation(&self, index: usize) -> (op: GateOp)
        requires
            index < self.ops().len(),
        ensures
            op == self.ops()[index as int],
    {
        self.operations[index]
    }

    /// Scans the recorded operations for the step the next operation on
    /// `target` receives.
    fn next_step_for(&self, target: usize) -> (n: usize)
        ensures
            n as int == next_step(self.ops(), target as int),
    {
        let mut n: usize = 0;
        let mut i: usize = 0;
        while i < self.operations.len()
            invariant
                i <= self.operations@.len(),
                n <= i,
                n as int == count_ops_on(self.operations@, target as int, i as int),
            decreases self.operations@.len() - i,
        {
            if self.operations[i].target == target {
                n = n + 1;
            }
            i = i + 1;
        }
        n
    }

    /// Appends one operation, stamped with the next step on its target.
    fn append_op(&mut self, gate: QuantumGate, control: Option<usize>, target: usize)
        requires
            old(self).wf(),
            target < old(self).spec_num_qubits(),
            control matches Some(c) ==> c < old(self).spec_num_qubits(),
        ensures
            final(self).wf(),
            final(self).spec_num_qubits() == old(self).spec_num_qubits(),
            final(self).ops() == old(self).ops().push(
                GateOp {
                    gate,
                    target,
                    control,
                    step: next_step(old(self).ops(), target as int) as usize,
                },
            ),
    {
        let step = self.next_step_for(target);
        let op = match control {
            Some(c) => GateOp::controlled(gate, c, target, step),
            None => GateOp::new(gate, target, step),
        };
        self.operations.push(op);
        proof {
            let pre = old(self).ops();
            let post = self.ops();
            assert(post == pre.push(op));
            assert forall|i: int| 0 <= i < post.len() implies (#[trigger] post[i]).step
                == count_ops_on(post, post[i].target as int, i) by {
                lemma_count_same_prefix(post, pre, post[i].target as int, i);
            }
        }
    }

    /// Appends a single-qubit gate operation on `target`.
    ///
    /// An index at or past the qubit count is out of bounds and excluded by
    /// contract; a call that violates it would corrupt no state — it simply
    /// cannot be made from verified code.
    fn add_gate(&mut self, gate: QuantumGate, target: usize)
        requires
            old(self).wf(),
            target < old(self).spec_num_qubits(),
        ensures
            final(self).wf(),
            final(self).spec_num_qubits() == old(self).spec_num_qubits(),
            final(self).ops() == old(self).ops().push(
                GateOp {
                    gate,
                    target,
                    control: None,
                    step: next_step(old(self).ops(), target as int) as usize,
                },
            ),
    {
        self.append_op(gate, None, target);
    }

    /// Appends a Hadamard gate on `target`.
    pub fn h(&mut self, target: usize)
        requires
            old(self).wf(),
            target < old(self).spec_num_qubits(),
        ensures
            final(self).wf(),
            final(self).spec_num_qubits() == old(self).spec_num_qubits(),
            final(self).ops() == old(self).ops().push(
                GateOp {
                    gate: QuantumGate::H,
                    target,
                    control: None,
                    step: next_step(old(self).ops(), target as int) as usize,
                },
            ),
    {
        self.add_gate(QuantumGate::H, target);
    }

    /// Appends a Pauli-X gate on `target`.
    pub fn x(&mut self, target: usize)
        requires
            old(self).wf(),
            target < old(self).spec_num_qubits(),
        ensures
            final(self).wf(),
            final(self).spec_num_qubits() == old(self).spec_num_qubits(),
            final(self).ops() == old(self).ops().push(
                GateOp {
                    gate: QuantumGate::X,
                    target,
                    control: None,
                    step: next_step(old(self).ops(), target as int) as usize,
                },
            ),
    {
        self.add_gate(QuantumGate::X, target);
    }

    /// Appends a Pauli-Y gate on `target`.
    pub fn y(&mut self, target: usize)
        requires
            old(self).wf(),
            target < old(self).spec_num_qubits(),
        ensures
            final(self).wf(),
            final(self).spec_num_qubits() == old(self).spec_num_qubits(),
            final(self).ops() == old(self).ops().push(
                GateOp {
                    gate: QuantumGate::Y,
                    target,
                    control: None,
                    step: next_step(old(self).ops(), target as int) as usize,
                },
            ),
    {
        self.add_gate(QuantumGate::Y, target);
    }

    /// Appends a Pauli-Z gate on `target`.
    pub fn z(&mut self, target: usize)
        requires
            old(self).wf(),
            target < old(self).spec_num_qubits(),
        ensures
            final(self).wf(),
            final(self).spec_num_qubits() == old(self).spec_num_qubits(),
            final(self).ops() == old(self).ops().push(
                GateOp {
                    gate: QuantumGate::Z,
                    target,
                    control: None,
                    step: next_step(old(self).ops(), target as int) as usize,
                },
            ),
    {
        self.add_gate(QuantumGate::Z, target);
    }

    /// Appends a phase (S) gate on `target`.
    pub fn s(&mut self, target: usize)
        requires
            old(self).wf(),
            target < old(self).spec_num_qubits(),
        ensures
            final(self).wf(),
            final(self).spec_num_qubits() == old(self).spec_num_qubits(),
            final(self).ops() == old(self).ops().push(
                GateOp {
                    gate: QuantumGate::S,
                    target,
                    control: None,
                    step: next_step(old(self).ops(), target as int) as usize,
                },
            ),
    {
        self.add_gate(QuantumGate::S, target);
    }

    /// Appends a T gate on `target`.
    pub fn t(&mut self, target: usize)
        requires
            old(self).wf(),
            target < old(self).spec_num_qubits(),
        ensures
            final(self).wf(),
            final(self).spec_num_qubits() == old(self).spec_num_qubits(),
            final(self).ops() == old(self).ops().push(
                GateOp {
                    gate: QuantumGate::T,
                    target,
                    control: None,
                    step: next_step(old(self).ops(), target as int) as usize,
                },
            ),
    {
        self.add_gate(QuantumGate::T, target);
    }

    /// Appends a CNOT gate with the given control and target qubits.
    ///
    /// Only the target's timeline takes a step: the control qubit is
    /// recorded for display but consumes no step slot of its own, and
    /// execution never reads it.
    pub fn cnot(&mut self, control: usize, target: usize)
        requires
            old(self).wf(),
            control < old(self).spec_num_qubits(),
            target < old(self).spec_num_qubits(),
        ensures
            final(self).wf(),
            final(self).spec_num_qubits() == old(self).spec_num_qubits(),
            final(self).ops() == old(self).ops().push(
                GateOp {
                    gate: QuantumGate::CNOT,
                    target,
                    control: Some(control),
                    step: next_step(old(self).ops(), target as int) as usize,
                },
            ),
    {
        self.append_op(QuantumGate::CNOT, Some(control), target);
    }

    /// Replays the recorded operations, in append order, against the given
    /// qubit states: each operation transforms the state at its target index
    /// and touches nothing else. A control index is never read.
    ///
    /// The state count must equal the circuit's qubit count; a mismatched
    /// array is excluded by contract, so no state is ever partially mutated.
    /// The Hadamard budget clause is the machine limit of [`SCALE_CAP`].
    pub fn execute(&self, qubits: &mut Vec<Qubit>)
        requires
            self.wf(),
            old(qubits)@.len() == self.spec_num_qubits(),
            forall|i: int|
                0 <= i < old(qubits)@.len() ==> is_normalized((#[trigger] old(qubits)@[i])@),
            h_budget_ok(self.ops(), views_of(old(qubits)@)),
        ensures
            final(qubits)@.len() == old(qubits)@.len(),
            views_of(final(qubits)@) == run_ops(self.ops(), views_of(old(qubits)@)),
            forall|i: int|
                0 <= i < final(qubits)@.len() ==> is_normalized((#[trigger] final(qubits)@[i])@),
    {
        let ghost init = views_of(qubits@);
        let n = self.operations.len();
        let mut j: usize = 0;
        while j < n
            invariant
                j <= n,
                n as int == self.ops().len(),
                self.wf(),
                qubits@.len() == init.len(),
                init.len() == self.spec_num_qubits(),
                init == views_of(old(qubits)@),
                views_of(qubits@) == run_ops_prefix(self.ops(), init, j as int),
                forall|i: int| 0 <= i < init.len() ==> is_normalized(#[trigger] init[i]),
                h_budget_ok(self.ops(), init),
            decreases n - j,
        {
            let op = self.operations[j];
            let target = op.target;
            proof {
                assert(self.ops()[j as int].target < self.spec_num_qubits());
                assert forall|i: int| 0 <= i < self.ops().len() implies (#[trigger] self.ops()[i]).target
                    < init.len() by {}
                lemma_run_prefix_props(self.ops(), init, j as int);
                assert(views_of(qubits@)[target as int] == qubits@[target as int]@);
                if op.gate == QuantumGate::H {
                    lemma_count_h_monotone(self.ops(), target as int, j as int + 1, n as int);
                }
            }
            let mut state = qubits[target];
            state.apply(op.gate);
            qubits.set(target, state);
            proof {
                let prev = run_ops_prefix(self.ops(), init, j as int);
                assert(views_of(qubits@) =~= prev.update(
                    target as int,
                    gate_transform(op.gate, prev[target as int]),
                ));
            }
            j = j + 1;
        }
        proof {
            lemma_run_prefix_props(self.ops(), init, n as int);
            assert forall|i: int| 0 <= i < qubits@.len() implies is_normalized(
                (#[trigger] qubits@[i])@,
            ) by {
                assert(qubits@[i]@ == views_of(qubits@)[i]);
            }
        }
    }
}

/// Counting Hadamards over a longer prefix never counts fewer.
proof fn lemma_count_h_monotone(ops: Seq<GateOp>, t: int, n1: int, n2: int)
    requires
        0 <= n1 <= n2,
    ensures
        count_h_on(ops, t, n1) <= count_h_on(ops, t, n2),
    decreases n2,
{
    if n1 < n2 {
        lemma_count_h_monotone(ops, t, n1, n2 - 1);
    }
}

/// Replaying a prefix of in-bounds operations against normalized states keeps
/// the length, keeps every state normalized, and raises each state's scale by
/// exactly the Hadamards replayed against it.
proof fn lemma_run_prefix_props(ops: Seq<GateOp>, init: Seq<QubitV>, n: int)
    requires
        0 <= n <= ops.len(),
        forall|i: int| 0 <= i < ops.len() ==> (#[trigger] ops[i]).target < init.len(),
        forall|i: int| 0 <= i < init.len() ==> is_normalized(#[trigger] init[i]),
        h_budget_ok(ops, init),
    ensures
        run_ops_prefix(ops, init, n).len() == init.len(),
        forall|i: int|
            0 <= i < init.len() ==> is_normalized(#[trigger] run_ops_prefix(ops, init, n)[i]),
        forall|t: int|
            0 <= t < init.len() ==> (#[trigger] run_ops_prefix(ops, init, n)[t]).scale
                == init[t].scale + count_h_on(ops, t, n),
    decreases n,
{
    if n > 0 {
        lemma_run_prefix_props(ops, init, n - 1);
        let prev = run_ops_prefix(ops, init, n - 1);
        let op = ops[n - 1];
        let t = op.target as int;
        if op.gate == QuantumGate::H {
            lemma_count_h_monotone(ops, t, n, ops.len() as int);
            assert(prev[t].scale < SCALE_CAP);
        }
        lemma_transform_preserves_normalization(op.gate, prev[t]);
    }
}

/// Law: in a well-formed circuit every recorded operation addresses qubits
/// within the circuit's bounds — target always, control whenever present.
pub proof fn lemma_operations_in_bounds(c: QuantumCircuit, i: int)
    requires
        c.wf(),
        0 <= i < c.ops().len(),
    ensures
        c.ops()[i].target < c.spec_num_qubits(),
        c.ops()[i].control matches Some(ctrl) ==> ctrl < c.spec_num_qubits(),
{
}

/// Counting over a longer prefix never counts fewer.
proof fn lemma_count_monotone(ops: Seq<GateOp>, t: int, n1: int, n2: int)
    requires
        0 <= n1 <= n2,
    ensures
        count_ops_on(ops, t, n1) <= count_ops_on(ops, t, n2),
    decreases n2,
{
    if n1 < n2 {
        lemma_count_monotone(ops, t, n1, n2 - 1);
    }
}

/// Law: along one target's timeline, steps strictly increase in append
/// order — no step value repeats.
pub proof fn lemma_steps_increase(c: QuantumCircuit, i: int, j: int)
    requires
        c.wf(),
        0 <= i < j < c.ops().len(),
        c.ops()[i].target == c.ops()[j].target,
    ensures
        c.ops()[i].step < c.ops()[j].step,
{
    let t = c.ops()[i].target as int;
    assert(count_ops_on(c.ops(), t, i + 1) == count_ops_on(c.ops(), t, i) + 1);
    lemma_count_monotone(c.ops(), t, i + 1, j);
}

/// Where a count first passes `s`, an operation on `t` stands with exactly
/// `s` earlier operations on `t` before it.
proof fn lemma_count_passes(ops: Seq<GateOp>, t: int, s: int, n: int)
    requires
        0 <= s,
        0 <= n <= ops.len(),
        s < count_ops_on(ops, t, n),
    ensures
        exists|i: int|
            0 <= i < n && (#[trigger] ops[i]).target as int == t && count_ops_on(ops, t, i) == s,
    decreases n,
{
    if n > 0 {
        if count_ops_on(ops, t, n - 1) > s {
            lemma_count_passes(ops, t, s, n - 1);
            let w = choose|i: int|
                0 <= i < n - 1 && (#[trigger] ops[i]).target as int == t && count_ops_on(
                    ops,
                    t,
                    i,
                ) == s;
            assert(0 <= w < n && ops[w].target as int == t && count_ops_on(ops, t, w) == s);
        } else {
            assert(ops[n - 1].target as int == t && count_ops_on(ops, t, n - 1) == s);
        }
    }
}

/// Law: no gaps — every step value below a target's operation count is
/// carried by some operation on that target. Together with
/// [`lemma_steps_increase`] this says each target's steps, in append order,
/// are exactly 0, 1, 2, ….
pub proof fn lemma_steps_cover(c: QuantumCircuit, t: int, s: int)
    requires
        c.wf(),
        0 <= s < count_ops_on(c.ops(), t, c.ops().len() as int),
    ensures
        exists|i: int|
            0 <= i < c.ops().len() && (#[trigger] c.ops()[i]).target as int == t && c.ops()[i].step
                == s,
{
    lemma_count_passes(c.ops(), t, s, c.ops().len() as int);
    let w = choose|i: int|
        0 <= i < c.ops().len() && (#[trigger] c.ops()[i]).target as int == t && count_ops_on(
            c.ops(),
            t,
            i,
        ) == s;
    assert(0 <= w < c.ops().len() && c.ops()[w].target as int == t && c.ops()[w].step == s);
}

/// Law: execution is deterministic. Replaying one operation list against two
/// independently freshly-zeroed state arrays of the same length ends in
/// identical states.
pub proof fn lemma_execute_deterministic(ops: Seq<GateOp>, first: Seq<QubitV>, second: Seq<QubitV>)
    requires
        first.len() == second.len(),
        forall|i: int| 0 <= i < first.len() ==> (#[trigger] first[i]) == zero_state(),
        forall|i: int| 0 <= i < second.len() ==> (#[trigger] second[i]) == zero_state(),
    ensures
        run_ops(ops, first) == run_ops(ops, second),
{
    assert(first =~= second);
}

/// Law: a circuit with no operations leaves every state exactly as it was.
pub proof fn lemma_empty_circuit_keeps_states(ops: Seq<GateOp>, init: Seq<QubitV>)
    requires
        ops.len() == 0,
    ensures
        run_ops(ops, init) == init,
{
}

/// Counting within a prefix reads only that prefix: two sequences that agree
/// below `upto` count alike.
proof fn lemma_count_same_prefix(ops1: Seq<GateOp>, ops2: Seq<GateOp>, t: int, upto: int)
    requires
        0 <= upto,
        upto <= ops1.len(),
        upto <= ops2.len(),
        forall|j: int| 0 <= j < upto ==> ops1[j] == ops2[j],
    ensures
        count_ops_on(ops1, t, upto) == count_ops_on(ops2, t, upto),
    decreases upto,
{
    if upto > 0 {
        lemma_count_same_prefix(ops1, ops2, t, upto - 1);
    }
}

} // verus!
