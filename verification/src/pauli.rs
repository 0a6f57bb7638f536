//! The single-qubit Pauli operators.

use crate::phase::{gaussian_mul, lemma_unit_times, Phase};
use vstd::prelude::*;

verus! {

/// A single qubit Pauli operator without a phase.
///
/// These operators form a multiplicative group
/// and follow the usual commutation and anti-commutation relations.
#[derive(Debug, PartialEq, Eq, Clone, Copy, Hash, Structural)]
pub enum Pauli {
    I,
    X,
    Y,
    Z,
}

impl Pauli {
    /// Two Paulis commute when one of them is the identity or when they are equal.
    pub open spec fn commutes(self, other: Pauli) -> bool {
        self == Pauli::I || other == Pauli::I || self == other
    }

    /// The ordered pairs (X, Y), (Y, Z) and (Z, X), whose product carries the phase i.
    pub open spec fn follows_cycle(self, other: Pauli) -> bool {
        (self == Pauli::X && other == Pauli::Y) || (self == Pauli::Y && other == Pauli::Z) || (self
            == Pauli::Z && other == Pauli::X)
    }

    /// The non-identity Pauli that differs from two distinct non-identity Paulis.
    pub open spec fn third(self, other: Pauli) -> Pauli {
        if self != Pauli::X && other != Pauli::X {
            Pauli::X
        } else if self != Pauli::Y && other != Pauli::Y {
            Pauli::Y
        } else {
            Pauli::Z
        }
    }

    /// The product of two Paulis, phase dropped.
    pub open spec fn times(self, other: Pauli) -> Pauli {
        if self == Pauli::I {
            other
        } else if other == Pauli::I {
            self
        } else if self == other {
            Pauli::I
        } else {
            self.third(other)
        }
    }

    /// The phase of the product of two Paulis, as (real part, imaginary part).
    pub open spec fn times_phase(self, other: Pauli) -> (int, int) {
        if self.commutes(other) {
            (1int, 0int)
        } else if self.follows_cycle(other) {
            (0int, 1int)
        } else {
            (0int, -1int)
        }
    }

    /// The X part of a Pauli: X for X and Y, the identity for I and Z.
    pub open spec fn x_component(self) -> Pauli {
        if self == Pauli::X || self == Pauli::Y {
            Pauli::X
        } else {
            Pauli::I
        }
    }

    /// The Z part of a Pauli: Z for Y and Z, the identity for I and X.
    pub open spec fn z_component(self) -> Pauli {
        if self == Pauli::Y || self == Pauli::Z {
            Pauli::Z
        } else {
            Pauli::I
        }
    }

    /// Checks if the operator anti-commutes with the other operator.
    pub fn anticommutes_with(self, other: Self) -> (r: bool)
        ensures
            r == !self.commutes(other),
    {
        !self.commutes_with(other)
    }

    /// Checks if the operator commutes with the other operator.
    pub fn commutes_with(self, other: Self) -> (r: bool)
        ensures
            r == self.commutes(other),
    {
        self == Pauli::I || other == Pauli::I || self == other
    }

    /// Checks if the operator is not the identity.
    pub fn is_non_trivial(self) -> (r: bool)
        ensures
            r == (self != Pauli::I),
    {
        self != Pauli::I
    }

    /// Checks if the operator is the identity.
    pub fn is_trivial(self) -> (r: bool)
        ensures
            r == (self == Pauli::I),
    {
        self == Pauli::I
    }

    /// Multiplies two Paulis together, dropping the phase.
    pub fn multiply(self, other: Self) -> (r: Self)
        ensures
            r == self.times(other),
    {
        match (self, other) {
            (Pauli::I, p) => p,
            (p, Pauli::I) => p,
            (Pauli::X, Pauli::X) => Pauli::I,
            (Pauli::Y, Pauli::Y) => Pauli::I,
            (Pauli::Z, Pauli::Z) => Pauli::I,
            (Pauli::X, Pauli::Y) => Pauli::Z,
            (Pauli::Y, Pauli::Z) => Pauli::X,
            (Pauli::Z, Pauli::X) => Pauli::Y,
            (Pauli::Y, Pauli::X) => Pauli::Z,
            (Pauli::Z, Pauli::Y) => Pauli::X,
            (Pauli::X, Pauli::Z) => Pauli::Y,
        }
    }

    /// Multiplies two Paulis together returning a (Phase, Pauli) pair.
    pub fn multiply_with_phase(self, other: Self) -> (r: (Phase, Self))
        ensures
            r.0@ == self.times_phase(other),
            r.0.wf(),
            r.1 == self.times(other),
    {
        match (self, other) {
            (Pauli::I, p) => (Phase::one(), p),
            (p, Pauli::I) => (Phase::one(), p),
            (Pauli::X, Pauli::X) => (Phase::one(), Pauli::I),
            (Pauli::X, Pauli::Y) => (Phase::i(), Pauli::Z),
            (Pauli::X, Pauli::Z) => (Phase::minus_i(), Pauli::Y),
            (Pauli::Y, Pauli::X) => (Phase::minus_i(), Pauli::Z),
            (Pauli::Y, Pauli::Y) => (Phase::one(), Pauli::I),
            (Pauli::Y, Pauli::Z) => (Phase::i(), Pauli::X),
            (Pauli::Z, Pauli::X) => (Phase::i(), Pauli::Y),
            (Pauli::Z, Pauli::Y) => (Phase::minus_i(), Pauli::X),
            (Pauli::Z, Pauli::Z) => (Phase::one(), Pauli::I),
        }
    }
}

impl std::ops::Mul<Pauli> for Pauli {
    type Output = Pauli;

    /// The product of two Paulis, phase dropped.
    fn mul(self, other: Pauli) -> (r: Pauli) {
        self.multiply(other)
    }
}

impl vstd::std_specs::ops::MulSpecImpl<Pauli> for Pauli {
    open spec fn obeys_mul_spec() -> bool {
        true
    }

    open spec fn mul_req(self, other: Pauli) -> bool {
        true
    }

    open spec fn mul_spec(self, other: Pauli) -> Pauli {
        self.times(other)
    }
}

impl std::ops::MulAssign<Pauli> for Pauli {
    /// Replaces a Pauli by its product with another, phase dropped.
    fn mul_assign(&mut self, other: Pauli)
        ensures
            *final(self) == old(self).times(other),
    {
        *self = self.multiply(other);
    }
}

/// The phase-free product does not depend on the order of its factors.
pub proof fn lemma_times_commutative(a: Pauli, b: Pauli)
    ensures
        a.times(b) == b.times(a),
{
}

/// Swapping the factors of a product keeps the Pauli. It keeps the phase 1
/// of a commuting pair, and swaps the phases i and -i of an anticommuting
/// pair, so that the two phases are inverse to each other either way.
pub proof fn lemma_swapped_product(a: Pauli, b: Pauli)
    ensures
        a.times(b) == b.times(a),
        a.commutes(b) ==> a.times_phase(b) == (1int, 0int) && b.times_phase(a) == (1int, 0int),
        !a.commutes(b) ==> (a.times_phase(b) == (0int, 1int) && b.times_phase(a) == (0int, -1int))
            || (a.times_phase(b) == (0int, -1int) && b.times_phase(a) == (0int, 1int)),
        gaussian_mul(a.times_phase(b), b.times_phase(a)) == (1int, 0int),
{
    lemma_unit_times(a.times_phase(b), b.times_phase(a));
}

/// The phase-free product is associative.
pub proof fn lemma_times_associative(a: Pauli, b: Pauli, c: Pauli)
    ensures
        a.times(b).times(c) == a.times(b.times(c)),
{
}

/// Commutation of Paulis is symmetric.
pub proof fn lemma_commutes_symmetric(a: Pauli, b: Pauli)
    ensures
        a.commutes(b) == b.commutes(a),
{
}

/// The identity is neutral, every Pauli is its own inverse, and the product
/// of the X part and the Z part of a Pauli is that Pauli.
pub proof fn lemma_times_group(a: Pauli)
    ensures
        Pauli::I.times(a) == a,
        a.times(Pauli::I) == a,
        a.times(a) == Pauli::I,
        a.x_component().times(a.z_component()) == a,
{
}

} // verus!
