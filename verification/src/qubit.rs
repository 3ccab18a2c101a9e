//! Single-qubit state and each gate's transform on it.
//!
//! Every state reachable from |0⟩ under H, X, Y, Z, S and T has its
//! two amplitudes in the ring Z[ω], where ω = e^{iπ/4} is the eighth root of
//! unity, divided by a power of √2. A state is therefore kept exactly: each
//! amplitude is four integer coefficients (of 1, ω, ω², ω³), and the whole
//! state carries one scale exponent, the power of √2 in the denominator.
//! Useful identities: ω² = i, ω⁴ = -1, and √2 = ω - ω³.
//!
//! With this encoding normalization is an exact statement over integers, and
//! every gate transform is proved to preserve it — no floating point, no
//! tolerance.

use vstd::arithmetic::power2::lemma2_to64;
use vstd::arithmetic::power2::lemma2_to64_rest;
use vstd::arithmetic::power2::lemma_pow2_adds;
use vstd::arithmetic::power2::lemma_pow2_strictly_increases;
use vstd::arithmetic::power2::lemma_pow2_unfold;
use vstd::arithmetic::power2::pow2;
use vstd::prelude::*;

use crate::gate::QuantumGate;

verus! {

/// The largest scale exponent a state may carry.
///
/// A machine limit, not a physical one: normalization bounds every amplitude
/// coefficient by √(2^scale), so capping the scale at 120 keeps every
/// coefficient within ±2^60 and every gate's arithmetic inside `i64`.
/// Only the Hadamard gate raises the scale, by one per application.
pub const SCALE_CAP: u32 = 120;

/// One amplitude: the element `w0 + w1·ω + w2·ω² + w3·ω³` of Z[ω].
#[derive(Clone, Copy, Debug, PartialEq, Eq, Structural)]
pub struct Amp {
    /// Coefficient of 1.
    pub w0: i64,
    /// Coefficient of ω.
    pub w1: i64,
    /// Coefficient of ω² = i.
    pub w2: i64,
    /// Coefficient of ω³.
    pub w3: i64,
}

/// The mathematical value of an [`Amp`]: the same four coefficients as
/// unbounded integers.
pub ghost struct AmpV {
    pub w0: int,
    pub w1: int,
    pub w2: int,
    pub w3: int,
}

impl View for Amp {
    type V = AmpV;

    open spec fn view(&self) -> AmpV {
        AmpV { w0: self.w0 as int, w1: self.w1 as int, w2: self.w2 as int, w3: self.w3 as int }
    }
}

/// Coefficient-wise sum of two amplitudes.
pub open spec fn amp_sum(x: AmpV, y: AmpV) -> AmpV {
    AmpV { w0: x.w0 + y.w0, w1: x.w1 + y.w1, w2: x.w2 + y.w2, w3: x.w3 + y.w3 }
}

/// Coefficient-wise difference of two amplitudes.
pub open spec fn amp_diff(x: AmpV, y: AmpV) -> AmpV {
    AmpV { w0: x.w0 - y.w0, w1: x.w1 - y.w1, w2: x.w2 - y.w2, w3: x.w3 - y.w3 }
}

/// The negation of an amplitude.
pub open spec fn amp_opposite(x: AmpV) -> AmpV {
    AmpV { w0: -x.w0, w1: -x.w1, w2: -x.w2, w3: -x.w3 }
}

/// Multiplication by i = ω²: shifts each coefficient up two places, and
/// ω⁴ = -1 folds the overflowing places back with a sign change.
pub open spec fn amp_times_i(x: AmpV) -> AmpV {
    AmpV { w0: -x.w2, w1: -x.w3, w2: x.w0, w3: x.w1 }
}

/// Multiplication by ω: shifts each coefficient up one place, folding with
/// ω⁴ = -1.
pub open spec fn amp_times_omega(x: AmpV) -> AmpV {
    AmpV { w0: -x.w3, w1: x.w0, w2: x.w1, w3: x.w2 }
}

/// The rational part of |x|²: for x in Z[ω], the squared modulus is
/// `norm_int(x) + norm_rad(x)·√2`.
pub open spec fn norm_int(x: AmpV) -> int {
    x.w0 * x.w0 + x.w1 * x.w1 + x.w2 * x.w2 + x.w3 * x.w3
}

/// The √2 part of |x|²; see [`norm_int`].
pub open spec fn norm_rad(x: AmpV) -> int {
    x.w0 * x.w1 + x.w1 * x.w2 + x.w2 * x.w3 - x.w3 * x.w0
}

/// The state of one qubit, independent of every other qubit:
/// `(amp0·|0⟩ + amp1·|1⟩) / √2^scale`.
#[derive(Clone, Copy, Debug, PartialEq, Eq, Structural)]
pub struct Qubit {
    /// Amplitude of the |0⟩ basis state, before scaling.
    pub amp0: Amp,
    /// Amplitude of the |1⟩ basis state, before scaling.
    pub amp1: Amp,
    /// The denominator is √2 to this power.
    pub scale: u32,
}

/// The mathematical value of a [`Qubit`].
pub ghost struct QubitV {
    pub amp0: AmpV,
    pub amp1: AmpV,
    pub scale: nat,
}

impl View for Qubit {
    type V = QubitV;

    open spec fn view(&self) -> QubitV {
        QubitV { amp0: self.amp0@, amp1: self.amp1@, scale: self.scale as nat }
    }
}

/// The canonical initial state |0⟩: amplitude one on |0⟩, zero on |1⟩, no
/// scaling.
pub open spec fn zero_state() -> QubitV {
    QubitV {
        amp0: AmpV { w0: 1, w1: 0, w2: 0, w3: 0 },
        amp1: AmpV { w0: 0, w1: 0, w2: 0, w3: 0 },
        scale: 0,
    }
}

/// The normalization invariant, exactly: |amp0|² + |amp1|² == 2^scale, i.e.
/// the rational parts sum to 2^scale and the √2 parts cancel. The scale cap
/// is the machine limit documented at [`SCALE_CAP`].
pub open spec fn is_normalized(q: QubitV) -> bool {
    &&& norm_int(q.amp0) + norm_int(q.amp1) == pow2(q.scale)
    &&& norm_rad(q.amp0) + norm_rad(q.amp1) == 0
    &&& q.scale <= SCALE_CAP
}

/// What one gate does to one qubit's state. This is the single semantic
/// definition every contract speaks of.
///
/// Conventions: Y = [[0, -i], [i, 0]] (so Y|0⟩ = i|1⟩); S multiplies the |1⟩
/// amplitude by i, T by ω. H maps (a, b) to ((a+b)/√2, (a-b)/√2), expressed
/// by raising the scale. CNOT, as executed here, acts on the target qubit
/// alone and is a plain bit flip.
pub open spec fn gate_transform(g: QuantumGate, q: QubitV) -> QubitV {
    match g {
        QuantumGate::H => QubitV {
            amp0: amp_sum(q.amp0, q.amp1),
            amp1: amp_diff(q.amp0, q.amp1),
            scale: q.scale + 1,
        },
        QuantumGate::X => QubitV { amp0: q.amp1, amp1: q.amp0, ..q },
        QuantumGate::Y => QubitV {
            amp0: amp_opposite(amp_times_i(q.amp1)),
            amp1: amp_times_i(q.amp0),
            ..q
        },
        QuantumGate::Z => QubitV { amp1: amp_opposite(q.amp1), ..q },
        QuantumGate::S => QubitV { amp1: amp_times_i(q.amp1), ..q },
        QuantumGate::T => QubitV { amp1: amp_times_omega(q.amp1), ..q },
        QuantumGate::CNOT => QubitV { amp0: q.amp1, amp1: q.amp0, ..q },
    }
}

/// Negating an amplitude, or multiplying it by i or by ω, leaves its squared
/// modulus unchanged (both the rational and the √2 part).
proof fn lemma_unit_factor_norms(x: AmpV)
    ensures
        norm_int(amp_opposite(x)) == norm_int(x),
        norm_rad(amp_opposite(x)) == norm_rad(x),
        norm_int(amp_times_i(x)) == norm_int(x),
        norm_rad(amp_times_i(x)) == norm_rad(x),
        norm_int(amp_times_omega(x)) == norm_int(x),
        norm_rad(amp_times_omega(x)) == norm_rad(x),
{
    let o = amp_opposite(x);
    assert(o.w0 * o.w0 + o.w1 * o.w1 + o.w2 * o.w2 + o.w3 * o.w3
        == x.w0 * x.w0 + x.w1 * x.w1 + x.w2 * x.w2 + x.w3 * x.w3) by (nonlinear_arith)
        requires
            o.w0 == -x.w0,
            o.w1 == -x.w1,
            o.w2 == -x.w2,
            o.w3 == -x.w3;
    assert(o.w0 * o.w1 + o.w1 * o.w2 + o.w2 * o.w3 - o.w3 * o.w0
        == x.w0 * x.w1 + x.w1 * x.w2 + x.w2 * x.w3 - x.w3 * x.w0) by (nonlinear_arith)
        requires
            o.w0 == -x.w0,
            o.w1 == -x.w1,
            o.w2 == -x.w2,
            o.w3 == -x.w3;
    let i = amp_times_i(x);
    assert(i.w0 * i.w0 + i.w1 * i.w1 + i.w2 * i.w2 + i.w3 * i.w3
        == x.w0 * x.w0 + x.w1 * x.w1 + x.w2 * x.w2 + x.w3 * x.w3) by (nonlinear_arith)
        requires
            i.w0 == -x.w2,
            i.w1 == -x.w3,
            i.w2 == x.w0,
            i.w3 == x.w1;
    assert(i.w0 * i.w1 + i.w1 * i.w2 + i.w2 * i.w3 - i.w3 * i.w0
        == x.w0 * x.w1 + x.w1 * x.w2 + x.w2 * x.w3 - x.w3 * x.w0) by (nonlinear_arith)
        requires
            i.w0 == -x.w2,
            i.w1 == -x.w3,
            i.w2 == x.w0,
            i.w3 == x.w1;
    let m = amp_times_omega(x);
    assert(m.w0 * m.w0 + m.w1 * m.w1 + m.w2 * m.w2 + m.w3 * m.w3
        == x.w0 * x.w0 + x.w1 * x.w1 + x.w2 * x.w2 + x.w3 * x.w3) by (nonlinear_arith)
        requires
            m.w0 == -x.w3,
            m.w1 == x.w0,
            m.w2 == x.w1,
            m.w3 == x.w2;
    assert(m.w0 * m.w1 + m.w1 * m.w2 + m.w2 * m.w3 - m.w3 * m.w0
        == x.w0 * x.w1 + x.w1 * x.w2 + x.w2 * x.w3 - x.w3 * x.w0) by (nonlinear_arith)
        requires
            m.w0 == -x.w3,
            m.w1 == x.w0,
            m.w2 == x.w1,
            m.w3 == x.w2;
}

/// The parallelogram law in Z[ω]: the squared moduli of x+y and x-y sum to
/// twice those of x and y, in both the rational and the √2 part.
proof fn lemma_sum_diff_norms(x: AmpV, y: AmpV)
    ensures
        norm_int(amp_sum(x, y)) + norm_int(amp_diff(x, y)) == 2 * norm_int(x) + 2 * norm_int(y),
        norm_rad(amp_sum(x, y)) + norm_rad(amp_diff(x, y)) == 2 * norm_rad(x) + 2 * norm_rad(y),
{
    let s = amp_sum(x, y);
    let d = amp_diff(x, y);
    assert(s.w0 * s.w0 + s.w1 * s.w1 + s.w2 * s.w2 + s.w3 * s.w3
        + d.w0 * d.w0 + d.w1 * d.w1 + d.w2 * d.w2 + d.w3 * d.w3
        == 2 * (x.w0 * x.w0 + x.w1 * x.w1 + x.w2 * x.w2 + x.w3 * x.w3)
            + 2 * (y.w0 * y.w0 + y.w1 * y.w1 + y.w2 * y.w2 + y.w3 * y.w3)) by (nonlinear_arith)
        requires
            s.w0 == x.w0 + y.w0,
            s.w1 == x.w1 + y.w1,
            s.w2 == x.w2 + y.w2,
            s.w3 == x.w3 + y.w3,
            d.w0 == x.w0 - y.w0,
            d.w1 == x.w1 - y.w1,
            d.w2 == x.w2 - y.w2,
            d.w3 == x.w3 - y.w3;
    assert(s.w0 * s.w1 + d.w0 * d.w1 == 2 * (x.w0 * x.w1) + 2 * (y.w0 * y.w1)) by (nonlinear_arith)
        requires
            s.w0 == x.w0 + y.w0,
            s.w1 == x.w1 + y.w1,
            d.w0 == x.w0 - y.w0,
            d.w1 == x.w1 - y.w1;
    assert(s.w1 * s.w2 + d.w1 * d.w2 == 2 * (x.w1 * x.w2) + 2 * (y.w1 * y.w2)) by (nonlinear_arith)
        requires
            s.w1 == x.w1 + y.w1,
            s.w2 == x.w2 + y.w2,
            d.w1 == x.w1 - y.w1,
            d.w2 == x.w2 - y.w2;
    assert(s.w2 * s.w3 + d.w2 * d.w3 == 2 * (x.w2 * x.w3) + 2 * (y.w2 * y.w3)) by (nonlinear_arith)
        requires
            s.w2 == x.w2 + y.w2,
            s.w3 == x.w3 + y.w3,
            d.w2 == x.w2 - y.w2,
            d.w3 == x.w3 - y.w3;
    assert(s.w3 * s.w0 + d.w3 * d.w0 == 2 * (x.w3 * x.w0) + 2 * (y.w3 * y.w0)) by (nonlinear_arith)
        requires
            s.w3 == x.w3 + y.w3,
            s.w0 == x.w0 + y.w0,
            d.w3 == x.w3 - y.w3,
            d.w0 == x.w0 - y.w0;
}

/// Law: every gate transform preserves the normalization invariant.
///
/// The one machine-limit proviso: a Hadamard raises the scale by one, so its
/// input must sit strictly below [`SCALE_CAP`].
pub proof fn lemma_transform_preserves_normalization(g: QuantumGate, q: QubitV)
    requires
        is_normalized(q),
        g == QuantumGate::H ==> q.scale < SCALE_CAP,
    ensures
        is_normalized(gate_transform(g, q)),
{
    match g {
        QuantumGate::H => {
            lemma_sum_diff_norms(q.amp0, q.amp1);
            lemma_pow2_unfold(q.scale + 1);
        },
        QuantumGate::X | QuantumGate::CNOT => {},
        QuantumGate::Y => {
            lemma_unit_factor_norms(q.amp0);
            lemma_unit_factor_norms(q.amp1);
            lemma_unit_factor_norms(amp_times_i(q.amp1));
        },
        QuantumGate::Z => {
            lemma_unit_factor_norms(q.amp1);
        },
        QuantumGate::S => {
            lemma_unit_factor_norms(q.amp1);
        },
        QuantumGate::T => {
            lemma_unit_factor_norms(q.amp1);
        },
    }
}

/// From `c² ≤ b²` with `b ≥ 0`, the base is bounded: `-b ≤ c ≤ b`.
proof fn lemma_square_root_bound(c: int, b: int) by (nonlinear_arith)
    requires
        b >= 0,
        c * c <= b * b,
    ensures
        -b <= c <= b,
{
}

/// All eight coefficient squares in a pair of amplitudes are nonnegative.
proof fn lemma_squares_nonneg(x: AmpV, y: AmpV)
    ensures
        x.w0 * x.w0 >= 0,
        x.w1 * x.w1 >= 0,
        x.w2 * x.w2 >= 0,
        x.w3 * x.w3 >= 0,
        y.w0 * y.w0 >= 0,
        y.w1 * y.w1 >= 0,
        y.w2 * y.w2 >= 0,
        y.w3 * y.w3 >= 0,
{
    assert(x.w0 * x.w0 >= 0) by (nonlinear_arith);
    assert(x.w1 * x.w1 >= 0) by (nonlinear_arith);
    assert(x.w2 * x.w2 >= 0) by (nonlinear_arith);
    assert(x.w3 * x.w3 >= 0) by (nonlinear_arith);
    assert(y.w0 * y.w0 >= 0) by (nonlinear_arith);
    assert(y.w1 * y.w1 >= 0) by (nonlinear_arith);
    assert(y.w2 * y.w2 >= 0) by (nonlinear_arith);
    assert(y.w3 * y.w3 >= 0) by (nonlinear_arith);
}

/// In a normalized state every amplitude coefficient lies within ±2^60:
/// its square is at most the norm sum 2^scale ≤ 2^120 = (2^60)².
proof fn lemma_normalized_coefficient_bounds(q: QubitV)
    requires
        is_normalized(q),
    ensures
        -0x1000000000000000 <= q.amp0.w0 <= 0x1000000000000000,
        -0x1000000000000000 <= q.amp0.w1 <= 0x1000000000000000,
        -0x1000000000000000 <= q.amp0.w2 <= 0x1000000000000000,
        -0x1000000000000000 <= q.amp0.w3 <= 0x1000000000000000,
        -0x1000000000000000 <= q.amp1.w0 <= 0x1000000000000000,
        -0x1000000000000000 <= q.amp1.w1 <= 0x1000000000000000,
        -0x1000000000000000 <= q.amp1.w2 <= 0x1000000000000000,
        -0x1000000000000000 <= q.amp1.w3 <= 0x1000000000000000,
{
    let b: int = 0x1000000000000000;
    lemma_squares_nonneg(q.amp0, q.amp1);
    if q.scale < 120 {
        lemma_pow2_strictly_increases(q.scale, 120);
    }
    lemma_pow2_adds(60, 60);
    lemma2_to64();
    lemma2_to64_rest();
    assert(pow2(60) == b);
    assert(pow2(120) == b * b);
    lemma_square_root_bound(q.amp0.w0, b);
    lemma_square_root_bound(q.amp0.w1, b);
    lemma_square_root_bound(q.amp0.w2, b);
    lemma_square_root_bound(q.amp0.w3, b);
    lemma_square_root_bound(q.amp1.w0, b);
    lemma_square_root_bound(q.amp1.w1, b);
    lemma_square_root_bound(q.amp1.w2, b);
    lemma_square_root_bound(q.amp1.w3, b);
}

impl Amp {
    /// Coefficient-wise sum.
    fn plus(&self, other: &Amp) -> (r: Amp)
        requires
            i64::MIN <= self@.w0 + other@.w0 <= i64::MAX,
            i64::MIN <= self@.w1 + other@.w1 <= i64::MAX,
            i64::MIN <= self@.w2 + other@.w2 <= i64::MAX,
            i64::MIN <= self@.w3 + other@.w3 <= i64::MAX,
        ensures
            r@ == amp_sum(self@, other@),
    {
        Amp { w0: self.w0 + other.w0, w1: self.w1 + other.w1, w2: self.w2 + other.w2, w3: self.w3 + other.w3 }
    }

    /// Coefficient-wise difference.
    fn minus(&self, other: &Amp) -> (r: Amp)
        requires
            i64::MIN <= self@.w0 - other@.w0 <= i64::MAX,
            i64::MIN <= self@.w1 - other@.w1 <= i64::MAX,
            i64::MIN <= self@.w2 - other@.w2 <= i64::MAX,
            i64::MIN <= self@.w3 - other@.w3 <= i64::MAX,
        ensures
            r@ == amp_diff(self@, other@),
    {
        Amp { w0: self.w0 - other.w0, w1: self.w1 - other.w1, w2: self.w2 - other.w2, w3: self.w3 - other.w3 }
    }

    /// Negation.
    fn opposite(&self) -> (r: Amp)
        requires
            self@.w0 > i64::MIN,
            self@.w1 > i64::MIN,
            self@.w2 > i64::MIN,
            self@.w3 > i64::MIN,
        ensures
            r@ == amp_opposite(self@),
    {
        Amp { w0: -self.w0, w1: -self.w1, w2: -self.w2, w3: -self.w3 }
    }

    /// Multiplication by i = ω².
    fn times_i(&self) -> (r: Amp)
        requires
            self@.w2 > i64::MIN,
            self@.w3 > i64::MIN,
        ensures
            r@ == amp_times_i(self@),
    {
        Amp { w0: -self.w2, w1: -self.w3, w2: self.w0, w3: self.w1 }
    }

    /// Multiplication by ω.
    fn times_omega(&self) -> (r: Amp)
        requires
            self@.w3 > i64::MIN,
        ensures
            r@ == amp_times_omega(self@),
    {
        Amp { w0: -self.w3, w1: self.w0, w2: self.w1, w3: self.w2 }
    }
}

impl Qubit {
    /// The canonical initial state |0⟩.
    pub fn zero() -> (q: Qubit)
        ensures
            q@ == zero_state(),
            is_normalized(q@),
    {
        proof {
            lemma2_to64();
        }
        Qubit {
            amp0: Amp { w0: 1, w1: 0, w2: 0, w3: 0 },
            amp1: Amp { w0: 0, w1: 0, w2: 0, w3: 0 },
            scale: 0,
        }
    }

    /// Transforms this state in place by the given gate, exactly as
    /// [`gate_transform`] says, preserving normalization.
    ///
    /// The Hadamard proviso on the scale is the machine limit documented at
    /// [`SCALE_CAP`]; no input the limit admits can overflow.
    pub fn apply(&mut self, gate: QuantumGate)
        requires
            is_normalized(old(self)@),
            gate == QuantumGate::H ==> old(self)@.scale < SCALE_CAP,
        ensures
            final(self)@ == gate_transform(gate, old(self)@),
            is_normalized(final(self)@),
    {
        proof {
            lemma_normalized_coefficient_bounds(self@);
            lemma_transform_preserves_normalization(gate, self@);
        }
        match gate {
            QuantumGate::H => {
                let sum = self.amp0.plus(&self.amp1);
                let diff = self.amp0.minus(&self.amp1);
                self.amp0 = sum;
                self.amp1 = diff;
                self.scale = self.scale + 1;
            },
            QuantumGate::X | QuantumGate::CNOT => {
                let swapped = self.amp0;
                self.amp0 = self.amp1;
                self.amp1 = swapped;
            },
            QuantumGate::Y => {
                let lifted = self.amp1.times_i().opposite();
                let dropped = self.amp0.times_i();
                self.amp0 = lifted;
                self.amp1 = dropped;
            },
            QuantumGate::Z => {
                self.amp1 = self.amp1.opposite();
            },
            QuantumGate::S => {
                self.amp1 = self.amp1.times_i();
            },
            QuantumGate::T => {
                self.amp1 = self.amp1.times_omega();
            },
        }
    }
}

} // verus!
