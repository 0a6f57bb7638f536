//! Pauli strings as mathematical sequences: what the operators of this
//! library compute, stated position by position.

use crate::pauli::Pauli;
use crate::phase::{gaussian_mul, is_unit, lemma_units_closed};
use vstd::prelude::*;

verus! {

/// The number of positions below `n`, present in both strings, at which the
/// two Paulis anticommute.
pub open spec fn anticommuting_count(a: Seq<Pauli>, b: Seq<Pauli>, n: nat) -> nat
    decreases n,
{
    if n == 0 {
        0
    } else {
        anticommuting_count(a, b, (n - 1) as nat) + if n - 1 < a.len() && n - 1 < b.len() && !a[n
            - 1].commutes(b[n - 1]) {
            1nat
        } else {
            0nat
        }
    }
}

/// The position-wise product of two strings, phases dropped.
pub open spec fn product_string(a: Seq<Pauli>, b: Seq<Pauli>) -> Seq<Pauli> {
    Seq::new(a.len(), |i: int| a[i].times(b[i]))
}

/// The string of the given length that holds the same Pauli everywhere.
pub open spec fn constant_string(len: nat, pauli: Pauli) -> Seq<Pauli> {
    Seq::new(len, |i: int| pauli)
}

/// The product of the phases that the position-wise products of the first
/// `n` positions carry, as (real part, imaginary part).
pub open spec fn product_phase(a: Seq<Pauli>, b: Seq<Pauli>, n: nat) -> (int, int)
    decreases n,
{
    if n == 0 {
        (1int, 0int)
    } else {
        gaussian_mul(product_phase(a, b, (n - 1) as nat), a[n - 1].times_phase(b[n - 1]))
    }
}

/// `positions` lists, in ascending order, exactly the positions of `s` that
/// hold a Pauli other than the identity.
pub open spec fn marks_non_trivial(s: Seq<Pauli>, positions: Seq<usize>) -> bool {
    &&& forall|i: int, j: int| 0 <= i < j < positions.len() ==> positions[i] < positions[j]
    &&& forall|k: int|
        0 <= k < positions.len() ==> (#[trigger] positions[k]) < s.len() && s[positions[k] as int]
            != Pauli::I
    &&& forall|p: int|
        0 <= p < s.len() && #[trigger] s[p] != Pauli::I ==> exists|k: int|
            0 <= k < positions.len() && #[trigger] positions[k] == p
}

/// The accumulated phase of a position-wise product is one of the four units.
pub proof fn lemma_product_phase_unit(a: Seq<Pauli>, b: Seq<Pauli>, n: nat)
    ensures
        is_unit(product_phase(a, b, n)),
    decreases n,
{
    if n > 0 {
        lemma_product_phase_unit(a, b, (n - 1) as nat);
        lemma_units_closed(product_phase(a, b, (n - 1) as nat), a[n - 1].times_phase(b[n - 1]));
    }
}

/// Counting anticommuting positions does not depend on the order of the two strings.
pub proof fn lemma_anticommuting_count_symmetric(a: Seq<Pauli>, b: Seq<Pauli>, n: nat)
    ensures
        anticommuting_count(a, b, n) == anticommuting_count(b, a, n),
    decreases n,
{
    if n > 0 {
        lemma_anticommuting_count_symmetric(a, b, (n - 1) as nat);
    }
}

/// Positions that one of the strings does not have add nothing to the count.
pub proof fn lemma_anticommuting_count_saturates(a: Seq<Pauli>, b: Seq<Pauli>, m: nat, n: nat)
    requires
        m <= n,
        a.len() <= m || b.len() <= m,
    ensures
        anticommuting_count(a, b, n) == anticommuting_count(a, b, m),
    decreases n,
{
    if n > m {
        lemma_anticommuting_count_saturates(a, b, m, (n - 1) as nat);
    }
}

} // verus!
