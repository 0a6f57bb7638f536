//! Multi-qubit operators stored position by position, with a global phase.

use crate::pauli::Pauli;
use crate::phase::{gaussian_mul, is_unit, lemma_units_closed, Phase};
use crate::strings::{
    anticommuting_count, constant_string, lemma_anticommuting_count_symmetric,
    lemma_product_phase_unit, marks_non_trivial, product_phase, product_string,
};
use itertools::Itertools;
use vstd::prelude::*;
use vstd::std_specs::cmp::PartialEqSpecImpl;

verus! {

/// A dense Pauli operator is a global phase
/// and a list of single qubit Paulis.
#[derive(Debug, Hash)]
pub struct DensePauliOperator {
    paulis: Vec<Pauli>,
    phase: Phase,
}

/// What a dense operator stands for: a Pauli string and a phase,
/// the phase as (real part, imaginary part).
pub ghost struct DenseModel {
    pub paulis: Seq<Pauli>,
    pub phase: (int, int),
}

impl View for DensePauliOperator {
    type V = DenseModel;

    closed spec fn view(&self) -> DenseModel {
        DenseModel { paulis: self.paulis@, phase: self.phase@ }
    }
}

impl Clone for DensePauliOperator {
    fn clone(&self) -> (r: Self)
        ensures
            r@ == self@,
    {
        DensePauliOperator { paulis: self.paulis(), phase: self.phase }
    }
}

impl PartialEq for DensePauliOperator {
    /// Two operators are equal when they have the same Paulis and the same phase.
    fn eq(&self, other: &Self) -> (r: bool) {
        if self.phase != other.phase || self.paulis.len() != other.paulis.len() {
            proof {
                if self.phase@ == other.phase@ {
                    Phase::lemma_view_injective(self.phase, other.phase);
                }
            }
            return false;
        }
        let mut i: usize = 0;
        while i < self.paulis.len()
            invariant
                i <= self.paulis@.len(),
                self.paulis@.len() == other.paulis@.len(),
                forall|k: int| 0 <= k < i ==> self.paulis@[k] == other.paulis@[k],
            decreases self.paulis@.len() - i,
        {
            if self.paulis[i] != other.paulis[i] {
                return false;
            }
            i += 1;
        }
        proof {
            assert(self.paulis@ =~= other.paulis@);
        }
        true
    }
}

impl Eq for DensePauliOperator {

}

impl PartialEqSpecImpl for DensePauliOperator {
    open spec fn obeys_eq_spec() -> bool {
        true
    }

    open spec fn eq_spec(&self, other: &Self) -> bool {
        self@ == other@
    }
}

/// `Itertools::positions` of itertools over the Paulis, with
/// `Pauli::is_non_trivial` as the predicate, collected: the indices of the
/// Paulis other than the identity, ascending.
#[verifier::external_body]
fn positions_of_non_trivial(paulis: &Vec<Pauli>) -> (r: Vec<usize>)
    ensures
        marks_non_trivial(paulis@, r@),
{
    paulis.iter().cloned().positions(Pauli::is_non_trivial).collect()
}

impl DensePauliOperator {
    /// An operator is well formed when its phase is one of the four units.
    pub open spec fn wf(&self) -> bool {
        is_unit(self@.phase)
    }

    /// Creates a new empty operator.
    pub fn new() -> (r: Self)
        ensures
            r@.paulis == Seq::<Pauli>::empty(),
            r@.phase == (1int, 0int),
            r.wf(),
    {
        Self { paulis: Vec::new(), phase: Phase::one() }
    }

    /// Creates a new operator from the given Paulis with
    /// a phase of 1.
    pub fn with_paulis(paulis: Vec<Pauli>) -> (r: Self)
        ensures
            r@.paulis == paulis@,
            r@.phase == (1int, 0int),
            r.wf(),
    {
        Self { paulis, phase: Phase::one() }
    }

    /// Creates a new operator from the given phase and Paulis.
    pub fn with_phase_and_paulis(phase: Phase, paulis: Vec<Pauli>) -> (r: Self)
        requires
            phase.wf(),
        ensures
            r@.paulis == paulis@,
            r@.phase == phase@,
            r.wf(),
    {
        Self { paulis, phase }
    }

    /// Returns the length of the operator.
    pub fn len(&self) -> (r: usize)
        ensures
            r == self@.paulis.len(),
    {
        self.paulis.len()
    }

    /// Returns true if the operator contains no Paulis.
    pub fn is_empty(&self) -> (r: bool)
        ensures
            r == (self@.paulis.len() == 0),
    {
        self.len() == 0
    }

    /// Returns all single qubit Paulis of the operator, in order.
    pub fn paulis(&self) -> (r: Vec<Pauli>)
        ensures
            r@ == self@.paulis,
    {
        let mut out: Vec<Pauli> = Vec::with_capacity(self.paulis.len());
        let mut i: usize = 0;
        while i < self.paulis.len()
            invariant
                i <= self.paulis.len(),
                out@ == self.paulis@.take(i as int),
            decreases self.paulis.len() - i,
        {
            out.push(self.paulis[i]);
            proof {
                assert(self.paulis@.take(i + 1) =~= self.paulis@.take(i as int).push(
                    self.paulis@[i as int],
                ));
            }
            i += 1;
        }
        proof {
            assert(self.paulis@.take(i as int) =~= self.paulis@);
        }
        out
    }

    /// Returns the phase of the operator.
    pub fn phase(&self) -> (r: Phase)
        ensures
            r@ == self@.phase,
    {
        self.phase
    }

    /// Returns the positions where single qubit
    /// Paulis are not identity, in ascending order.
    pub fn non_trivial_positions(&self) -> (r: Vec<usize>)
        ensures
            marks_non_trivial(self@.paulis, r@),
    {
        positions_of_non_trivial(&self.paulis)
    }

    /// Returns the (position, Pauli) pairs where
    /// single qubit Paulis are not identity, in ascending order of position.
    pub fn non_trivial_paulis(&self) -> (r: Vec<(usize, Pauli)>)
        ensures
            marks_non_trivial(self@.paulis, r@.map_values(|e: (usize, Pauli)| e.0)),
            forall|k: int| 0 <= k < r@.len() ==> (#[trigger] r@[k]).1 == self@.paulis[r@[k].0 as int],
    {
        let mut out: Vec<(usize, Pauli)> = Vec::new();
        let mut i: usize = 0;
        while i < self.paulis.len()
            invariant
                i <= self.paulis.len(),
                forall|a: int, b: int| 0 <= a < b < out@.len() ==> out@[a].0 < out@[b].0,
                forall|k: int|
                    0 <= k < out@.len() ==> (#[trigger] out@[k]).0 < i && self.paulis@[out@[k].0 as int]
                        != Pauli::I && out@[k].1 == self.paulis@[out@[k].0 as int],
                forall|p: int|
                    0 <= p < i && #[trigger] self.paulis@[p] != Pauli::I ==> exists|k: int|
                        0 <= k < out@.len() && (#[trigger] out@[k]).0 == p,
            decreases self.paulis.len() - i,
        {
            let pauli = self.paulis[i];
            if pauli.is_non_trivial() {
                let ghost before = out@;
                out.push((i, pauli));
                proof {
                    assert(out@[before.len() as int].0 == i);
                    assert forall|p: int|
                        0 <= p < i + 1 && #[trigger] self.paulis@[p] != Pauli::I implies exists|
                        k: int,
                    | 0 <= k < out@.len() && (#[trigger] out@[k]).0 == p by {
                        if p < i {
                            let k = choose|k: int| 0 <= k < before.len() && (#[trigger] before[k]).0 == p;
                            assert(out@[k].0 == p);
                        } else {
                            assert(out@[before.len() as int].0 == p);
                        }
                    }
                }
            }
            i += 1;
        }
        proof {
            let positions = out@.map_values(|e: (usize, Pauli)| e.0);
            assert forall|p: int|
                0 <= p < self.paulis@.len() && #[trigger] self.paulis@[p] != Pauli::I implies exists|
                k: int,
            | 0 <= k < positions.len() && #[trigger] positions[k] == p by {
                let k = choose|k: int| 0 <= k < out@.len() && (#[trigger] out@[k]).0 == p;
                assert(positions[k] == p);
            }
            assert forall|k: int| 0 <= k < positions.len() implies (#[trigger] positions[k])
                < self.paulis@.len() && self.paulis@[positions[k] as int] != Pauli::I by {
                assert(out@[k].0 < i);
            }
        }
        out
    }

    /// The number of positions at which the Paulis of the two operators anticommute.
    fn count_anticommuting(&self, other: &Self) -> (r: usize)
        requires
            self@.paulis.len() == other@.paulis.len(),
        ensures
            r == anticommuting_count(self@.paulis, other@.paulis, self@.paulis.len()),
    {
        let mut count: usize = 0;
        let mut i: usize = 0;
        while i < self.paulis.len()
            invariant
                i <= self.paulis.len(),
                self.paulis@.len() == other.paulis@.len(),
                count <= i,
                count == anticommuting_count(self.paulis@, other.paulis@, i as nat),
            decreases self.paulis.len() - i,
        {
            if self.paulis[i].anticommutes_with(other.paulis[i]) {
                count += 1;
            }
            i += 1;
        }
        count
    }

    /// Checks if two operators of the same length commute: they do when the
    /// number of positions at which their Paulis anticommute is even.
    pub fn commutes_with(&self, other: &Self) -> (r: bool)
        requires
            self@.paulis.len() == other@.paulis.len(),
        ensures
            r == (anticommuting_count(self@.paulis, other@.paulis, self@.paulis.len()) % 2 == 0),
    {
        self.count_anticommuting(other) % 2 == 0
    }

    /// Checks if two operators of the same length anticommute: they do when
    /// the number of positions at which their Paulis anticommute is odd.
    pub fn anticommutes_with(&self, other: &Self) -> (r: bool)
        requires
            self@.paulis.len() == other@.paulis.len(),
        ensures
            r == (anticommuting_count(self@.paulis, other@.paulis, self@.paulis.len()) % 2 == 1),
    {
        self.count_anticommuting(other) % 2 == 1
    }

    /// The product of two operators of the same length: the position-wise
    /// products of the Paulis, and as phase the product of the phases that
    /// those products carry, times the phase of each operator.
    pub fn multiply(&self, other: &Self) -> (r: Self)
        requires
            self.wf(),
            other.wf(),
            self@.paulis.len() == other@.paulis.len(),
        ensures
            r@.paulis == product_string(self@.paulis, other@.paulis),
            r@.phase == gaussian_mul(
                gaussian_mul(
                    product_phase(self@.paulis, other@.paulis, self@.paulis.len()),
                    self@.phase,
                ),
                other@.phase,
            ),
            r.wf(),
    {
        let mut total = Phase::one();
        let mut paulis: Vec<Pauli> = Vec::with_capacity(self.len());
        let mut i: usize = 0;
        while i < self.paulis.len()
            invariant
                i <= self.paulis.len(),
                self.paulis@.len() == other.paulis@.len(),
                total.wf(),
                total@ == product_phase(self.paulis@, other.paulis@, i as nat),
                paulis@.len() == i,
                forall|k: int|
                    0 <= k < i ==> #[trigger] paulis@[k] == self.paulis@[k].times(other.paulis@[k]),
            decreases self.paulis.len() - i,
        {
            let (phase, pauli) = self.paulis[i].multiply_with_phase(other.paulis[i]);
            paulis.push(pauli);
            total = total.multiply(phase);
            i += 1;
        }
        proof {
            assert(paulis@ =~= product_string(self.paulis@, other.paulis@));
        }
        DensePauliOperator { phase: total.multiply(self.phase).multiply(other.phase), paulis }
    }

    /// The operator with the same Paulis and its phase multiplied by the given phase.
    pub fn multiply_phase(&self, phase: Phase) -> (r: Self)
        requires
            self.wf(),
            phase.wf(),
        ensures
            r@.paulis == self@.paulis,
            r@.phase == gaussian_mul(self@.phase, phase@),
            r.wf(),
    {
        DensePauliOperator { paulis: self.paulis(), phase: self.phase.multiply(phase) }
    }

    /// The operator with every Pauli multiplied from the right by the given
    /// Pauli, and its phase multiplied by the phases that these products carry.
    pub fn multiply_pauli(&self, pauli: Pauli) -> (r: Self)
        requires
            self.wf(),
        ensures
            r@.paulis == product_string(
                self@.paulis,
                constant_string(self@.paulis.len(), pauli),
            ),
            r@.phase == gaussian_mul(
                self@.phase,
                product_phase(
                    self@.paulis,
                    constant_string(self@.paulis.len(), pauli),
                    self@.paulis.len(),
                ),
            ),
            r.wf(),
    {
        let ghost right = constant_string(self.paulis@.len(), pauli);
        let mut total = Phase::one();
        let mut paulis: Vec<Pauli> = Vec::with_capacity(self.len());
        let mut i: usize = 0;
        while i < self.paulis.len()
            invariant
                i <= self.paulis.len(),
                right == constant_string(self.paulis@.len(), pauli),
                total.wf(),
                total@ == product_phase(self.paulis@, right, i as nat),
                paulis@.len() == i,
                forall|k: int| 0 <= k < i ==> #[trigger] paulis@[k] == self.paulis@[k].times(pauli),
            decreases self.paulis.len() - i,
        {
            let (phase, product) = self.paulis[i].multiply_with_phase(pauli);
            paulis.push(product);
            total = total.multiply(phase);
            i += 1;
        }
        proof {
            assert(paulis@ =~= product_string(self.paulis@, right));
        }
        DensePauliOperator { paulis, phase: self.phase.multiply(total) }
    }

    /// Commutation of dense operators is symmetric.
    pub proof fn lemma_commutes_symmetric(a: Self, b: Self)
        requires
            a@.paulis.len() == b@.paulis.len(),
        ensures
            anticommuting_count(a@.paulis, b@.paulis, a@.paulis.len()) == anticommuting_count(
                b@.paulis,
                a@.paulis,
                b@.paulis.len(),
            ),
    {
        lemma_anticommuting_count_symmetric(a@.paulis, b@.paulis, a@.paulis.len());
    }

    /// The phase of a product of two well-formed operators is one of the four units.
    pub proof fn lemma_product_phase_closed(a: Self, b: Self)
        requires
            a.wf(),
            b.wf(),
            a@.paulis.len() == b@.paulis.len(),
        ensures
            is_unit(
                gaussian_mul(
                    gaussian_mul(product_phase(a@.paulis, b@.paulis, a@.paulis.len()), a@.phase),
                    b@.phase,
                ),
            ),
    {
        lemma_product_phase_unit(a@.paulis, b@.paulis, a@.paulis.len());
        lemma_units_closed(
            product_phase(a@.paulis, b@.paulis, a@.paulis.len()),
            a@.phase,
        );
        lemma_units_closed(
            gaussian_mul(product_phase(a@.paulis, b@.paulis, a@.paulis.len()), a@.phase),
            b@.phase,
        );
    }
}

impl std::ops::Mul<&DensePauliOperator> for &DensePauliOperator {
    type Output = DensePauliOperator;

    /// The product of two operators of the same length.
    fn mul(self, other: &DensePauliOperator) -> (r: DensePauliOperator)
        ensures
            r@.paulis == product_string(self@.paulis, other@.paulis),
            r@.phase == gaussian_mul(
                gaussian_mul(
                    product_phase(self@.paulis, other@.paulis, self@.paulis.len()),
                    self@.phase,
                ),
                other@.phase,
            ),
            r.wf(),
    {
        self.multiply(other)
    }
}

/// The product is not given as a spec value: what `*` returns is stated
/// by the `ensures` of `mul`.
impl vstd::std_specs::ops::MulSpecImpl<&DensePauliOperator> for &DensePauliOperator {
    open spec fn obeys_mul_spec() -> bool {
        false
    }

    open spec fn mul_req(self, other: &DensePauliOperator) -> bool {
        self.wf() && other.wf() && self@.paulis.len() == other@.paulis.len()
    }

    open spec fn mul_spec(self, other: &DensePauliOperator) -> DensePauliOperator {
        *self
    }
}

impl std::ops::Mul<Phase> for &DensePauliOperator {
    type Output = DensePauliOperator;

    /// The operator with its phase multiplied by the given phase.
    fn mul(self, phase: Phase) -> (r: DensePauliOperator)
        ensures
            r@.paulis == self@.paulis,
            r@.phase == gaussian_mul(self@.phase, phase@),
            r.wf(),
    {
        self.multiply_phase(phase)
    }
}

/// The product is not given as a spec value: what `*` returns is stated
/// by the `ensures` of `mul`.
impl vstd::std_specs::ops::MulSpecImpl<Phase> for &DensePauliOperator {
    open spec fn obeys_mul_spec() -> bool {
        false
    }

    open spec fn mul_req(self, phase: Phase) -> bool {
        self.wf() && phase.wf()
    }

    open spec fn mul_spec(self, phase: Phase) -> DensePauliOperator {
        *self
    }
}

impl std::ops::Mul<&DensePauliOperator> for Phase {
    type Output = DensePauliOperator;

    /// The operator with its phase multiplied by the given phase.
    fn mul(self, operator: &DensePauliOperator) -> (r: DensePauliOperator)
        ensures
            r@.paulis == operator@.paulis,
            r@.phase == gaussian_mul(operator@.phase, self@),
            r.wf(),
    {
        operator.multiply_phase(self)
    }
}

/// The product is not given as a spec value: what `*` returns is stated
/// by the `ensures` of `mul`.
impl vstd::std_specs::ops::MulSpecImpl<&DensePauliOperator> for Phase {
    open spec fn obeys_mul_spec() -> bool {
        false
    }

    open spec fn mul_req(self, operator: &DensePauliOperator) -> bool {
        self.wf() && operator.wf()
    }

    open spec fn mul_spec(self, operator: &DensePauliOperator) -> DensePauliOperator {
        *operator
    }
}

impl std::ops::Mul<Pauli> for &DensePauliOperator {
    type Output = DensePauliOperator;

    /// The operator with every Pauli multiplied by the given Pauli.
    fn mul(self, pauli: Pauli) -> (r: DensePauliOperator)
        ensures
            r@.paulis == product_string(
                self@.paulis,
                constant_string(self@.paulis.len(), pauli),
            ),
            r@.phase == gaussian_mul(
                self@.phase,
                product_phase(
                    self@.paulis,
                    constant_string(self@.paulis.len(), pauli),
                    self@.paulis.len(),
                ),
            ),
            r.wf(),
    {
        self.multiply_pauli(pauli)
    }
}

/// The product is not given as a spec value: what `*` returns is stated
/// by the `ensures` of `mul`.
impl vstd::std_specs::ops::MulSpecImpl<Pauli> for &DensePauliOperator {
    open spec fn obeys_mul_spec() -> bool {
        false
    }

    open spec fn mul_req(self, pauli: Pauli) -> bool {
        self.wf()
    }

    open spec fn mul_spec(self, pauli: Pauli) -> DensePauliOperator {
        *self
    }
}

impl std::ops::Mul<&DensePauliOperator> for Pauli {
    type Output = DensePauliOperator;

    /// The operator with every Pauli multiplied by the given Pauli, which
    /// stands to the right of each, as in the product taken the other way round.
    fn mul(self, operator: &DensePauliOperator) -> (r: DensePauliOperator)
        ensures
            r@.paulis == product_string(
                operator@.paulis,
                constant_string(operator@.paulis.len(), self),
            ),
            r@.phase == gaussian_mul(
                operator@.phase,
                product_phase(
                    operator@.paulis,
                    constant_string(operator@.paulis.len(), self),
                    operator@.paulis.len(),
                ),
            ),
            r.wf(),
    {
        operator.multiply_pauli(self)
    }
}

/// The product is not given as a spec value: what `*` returns is stated
/// by the `ensures` of `mul`.
impl vstd::std_specs::ops::MulSpecImpl<&DensePauliOperator> for Pauli {
    open spec fn obeys_mul_spec() -> bool {
        false
    }

    open spec fn mul_req(self, operator: &DensePauliOperator) -> bool {
        operator.wf()
    }

    open spec fn mul_spec(self, operator: &DensePauliOperator) -> DensePauliOperator {
        *operator
    }
}

} // verus!
