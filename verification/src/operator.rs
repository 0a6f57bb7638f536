//! Multi-qubit operators that store only their non-identity positions.

use crate::entries::{
    has_entry, lemma_contains_value, lemma_entries_determined, lemma_value_at_entry,
    strictly_increasing, value_at,
};
use crate::pauli::Pauli;
use crate::store::{
    store_clone, store_dim, store_empty, store_entries, store_eq, store_get, store_indices, store_into_raw,
    store_new, store_nnz, store_overlaps, store_union, stored_dim, stored_entries, Merged,
    SparseStore,
};
use crate::strings::{
    anticommuting_count, lemma_anticommuting_count_saturates,
    lemma_anticommuting_count_symmetric, marks_non_trivial, product_string,
};
use vstd::prelude::*;
use vstd::std_specs::cmp::PartialEqSpecImpl;

verus! {

/// Why an operator could not be built or two operators could not be multiplied.
#[derive(Debug, PartialEq, Eq, Clone, Copy, Hash, Structural)]
pub enum PauliError {
    /// Two lengths that have to be equal are not.
    IncompatibleLength(usize, usize),
    /// A position is not below the length.
    OutOfBound(usize, usize),
}

/// A Pauli operator optimized for sparse operations.
///
/// A Pauli operator is a string of Paulis
/// such as `IXIX` or `XIYIZ`.
/// Only the non-identity positions are stored,
/// and the phase is ignored.
#[derive(Debug, Hash)]
pub struct PauliOperator {
    paulis: SparseStore,
}

impl View for PauliOperator {
    type V = Seq<Pauli>;

    /// The operator as a full string of Paulis.
    open spec fn view(&self) -> Seq<Pauli> {
        Seq::new(self.spec_len(), |pos: int| value_at(self.entries(), pos))
    }
}

/// All the positions are below the length.
pub open spec fn in_bounds(positions: Seq<usize>, length: usize) -> bool {
    forall|i: int| 0 <= i < positions.len() ==> positions[i] < length
}

/// No position occurs twice.
pub open spec fn distinct(positions: Seq<usize>) -> bool {
    forall|i: int, j: int| 0 <= i < j < positions.len() ==> positions[i] != positions[j]
}

/// `i` is the index of the first position that is not below the length.
pub open spec fn first_out_of_bound(positions: Seq<usize>, length: usize, i: int) -> bool {
    &&& 0 <= i < positions.len()
    &&& positions[i] >= length
    &&& forall|j: int| 0 <= j < i ==> positions[j] < length
}

/// `i` is the first index at which its position is listed.
pub open spec fn is_first(positions: Seq<usize>, i: int) -> bool {
    &&& 0 <= i < positions.len()
    &&& forall|j: int| 0 <= j < i ==> positions[j] != positions[i]
}

/// The Pauli that the lists give for a position: the one listed with it,
/// the first one where the position is listed more than once, and the
/// identity where the position is not listed.
pub open spec fn listed_value(positions: Seq<usize>, paulis: Seq<Pauli>, pos: int) -> Pauli {
    if exists|i: int| #[trigger] is_first(positions, i) && positions[i] == pos {
        paulis[choose|i: int| #[trigger] is_first(positions, i) && positions[i] == pos]
    } else {
        Pauli::I
    }
}

/// The value listed for the position at an index that is the first with
/// its position is the Pauli at that index.
pub proof fn lemma_listed_value(positions: Seq<usize>, paulis: Seq<Pauli>, i: int)
    requires
        is_first(positions, i),
    ensures
        listed_value(positions, paulis, positions[i] as int) == paulis[i],
{
    let pos = positions[i] as int;
    let c = choose|c: int| #[trigger] is_first(positions, c) && positions[c] == pos;
    if c < i {
        assert(positions[c] != positions[i]);
    } else if i < c {
        assert(positions[i] != positions[c]);
    }
}

impl PartialEq for PauliOperator {
    /// Two operators are equal when they have the same length and store the
    /// same Paulis at the same positions.
    fn eq(&self, other: &Self) -> (r: bool) {
        store_eq(&self.paulis, &other.paulis)
    }
}

impl Eq for PauliOperator {

}

impl PartialEqSpecImpl for PauliOperator {
    open spec fn obeys_eq_spec() -> bool {
        true
    }

    open spec fn eq_spec(&self, other: &Self) -> bool {
        self.spec_len() == other.spec_len() && self.entries() == other.entries()
    }
}

impl Clone for PauliOperator {
    fn clone(&self) -> (r: Self)
        ensures
            r.spec_len() == self.spec_len(),
            r.entries() == self.entries(),
    {
        PauliOperator { paulis: store_clone(&self.paulis) }
    }
}

impl PauliOperator {
    /// The number of qubits.
    pub closed spec fn spec_len(&self) -> nat {
        stored_dim(self.paulis)
    }

    /// The stored (position, Pauli) pairs, in storage order.
    pub closed spec fn entries(&self) -> Seq<(usize, Pauli)> {
        stored_entries(self.paulis)
    }

    /// The stored positions increase strictly and are below the length, and
    /// no stored Pauli is the identity.
    pub open spec fn wf(&self) -> bool {
        &&& strictly_increasing(self.entries())
        &&& forall|k: int|
            0 <= k < self.entries().len() ==> (#[trigger] self.entries()[k]).0 < self.spec_len()
                && self.entries()[k].1 != Pauli::I
    }

    /// The operator is well formed, has the given length, and holds at each
    /// position the Pauli that the lists give for it.
    pub open spec fn built_from(
        &self,
        length: usize,
        positions: Seq<usize>,
        paulis: Seq<Pauli>,
    ) -> bool {
        &&& self.wf()
        &&& self.spec_len() == length
        &&& self@ == Seq::new(length as nat, |pos: int| listed_value(positions, paulis, pos))
    }

    /// Stores the listed Paulis that are not the identity. The ghost string
    /// is the operator that the lists describe.
    #[verifier::loop_isolation(false)]
    fn build(
        length: usize,
        positions: Vec<usize>,
        paulis: Vec<Pauli>,
        Ghost(target): Ghost<Seq<Pauli>>,
    ) -> (r: Self)
        requires
            positions@.len() == paulis@.len(),
            in_bounds(positions@, length),
            distinct(positions@),
            target.len() == length,
            forall|i: int| 0 <= i < positions@.len() ==> paulis@[i] == target[positions@[i] as int],
            forall|pos: int|
                0 <= pos < length && #[trigger] target[pos] != Pauli::I ==> exists|i: int|
                    0 <= i < positions@.len() && #[trigger] positions@[i] == pos,
        ensures
            r.wf(),
            r.spec_len() == length,
            r@ == target,
    {
        let mut kept_positions: Vec<usize> = Vec::new();
        let mut kept_paulis: Vec<Pauli> = Vec::new();
        let ghost mut src: Seq<int> = Seq::empty();
        let mut j: usize = 0;
        while j < positions.len()
            invariant
                j <= positions@.len(),
                positions@.len() == paulis@.len(),
                kept_positions@.len() == src.len(),
                kept_paulis@.len() == src.len(),
                forall|k: int|
                    0 <= k < src.len() ==> 0 <= #[trigger] src[k] < j && kept_positions@[k]
                        == positions@[src[k]] && kept_paulis@[k] == paulis@[src[k]]
                        && paulis@[src[k]] != Pauli::I,
                forall|a: int, b: int| 0 <= a < b < src.len() ==> src[a] < src[b],
                forall|m: int|
                    0 <= m < j && paulis@[m] != Pauli::I ==> exists|k: int|
                        0 <= k < src.len() && #[trigger] src[k] == m,
            decreases positions@.len() - j,
        {
            if paulis[j].is_non_trivial() {
                let ghost before = src;
                kept_positions.push(positions[j]);
                kept_paulis.push(paulis[j]);
                proof {
                    src = src.push(j as int);
                    assert(src[before.len() as int] == j);
                    assert forall|m: int| 0 <= m < j + 1 && paulis@[m] != Pauli::I implies exists|
                        k: int,
                    | 0 <= k < src.len() && #[trigger] src[k] == m by {
                        if m < j {
                            let k = choose|k: int| 0 <= k < before.len() && #[trigger] before[k] == m;
                            assert(src[k] == m);
                        }
                    }
                }
            }
            j += 1;
        }
        proof {
            assert forall|a: int, b: int| 0 <= a < b < kept_positions@.len() implies kept_positions@[a]
                != kept_positions@[b] by {
                assert(src[a] < src[b]);
            }
            assert forall|i: int| 0 <= i < kept_positions@.len() implies kept_positions@[i]
                < length by {
                assert(0 <= src[i] < j);
            }
        }
        let store = store_new(length, kept_positions, kept_paulis);
        let r = PauliOperator { paulis: store };
        proof {
            let e = r.entries();
            assert forall|k: int| 0 <= k < e.len() implies (#[trigger] e[k]).0 < length && e[k].1
                != Pauli::I by {
                let i = choose|i: int|
                    0 <= i < kept_positions@.len() && (
                        #[trigger] kept_positions@[i],
                        kept_paulis@[i],
                    ) == e[k];
                assert(0 <= src[i] < j);
            }
            assert forall|pos: int| 0 <= pos < length implies value_at(e, pos) == target[pos] by {
                if has_entry(e, pos) {
                    let k = choose|k: int| 0 <= k < e.len() && #[trigger] e[k].0 == pos;
                    lemma_value_at_entry(e, k);
                    let i = choose|i: int|
                        0 <= i < kept_positions@.len() && (
                            #[trigger] kept_positions@[i],
                            kept_paulis@[i],
                        ) == e[k];
                    assert(0 <= src[i] < j);
                } else if target[pos] != Pauli::I {
                    let m = choose|m: int| 0 <= m < positions@.len() && #[trigger] positions@[m] == pos;
                    assert(paulis@[m] == target[positions@[m] as int]);
                    let k = choose|k: int| 0 <= k < src.len() && #[trigger] src[k] == m;
                    assert(e.contains((kept_positions@[k], kept_paulis@[k])));
                    lemma_contains_value(e, kept_positions@[k], kept_paulis@[k]);
                }
            }
            assert(r@ =~= target);
        }
        r
    }

    /// Builds a new Pauli operator from its length, the positions of the
    /// Paulis and the Paulis. The positions may come in any order. Of a
    /// position that is listed more than once the first Pauli counts, and
    /// identities are not stored.
    #[verifier::loop_isolation(false)]
    pub fn new(length: usize, positions: Vec<usize>, paulis: Vec<Pauli>) -> (r: Self)
        requires
            positions@.len() == paulis@.len(),
            in_bounds(positions@, length),
        ensures
            r.built_from(length, positions@, paulis@),
    {
        let ghost target = Seq::new(
            length as nat,
            |pos: int| listed_value(positions@, paulis@, pos),
        );
        let mut first_positions: Vec<usize> = Vec::new();
        let mut first_paulis: Vec<Pauli> = Vec::new();
        let ghost mut src: Seq<int> = Seq::empty();
        let mut j: usize = 0;
        while j < positions.len()
            invariant
                j <= positions@.len(),
                first_positions@.len() == src.len(),
                first_paulis@.len() == src.len(),
                forall|k: int|
                    0 <= k < src.len() ==> is_first(positions@, #[trigger] src[k]) && src[k] < j
                        && first_positions@[k] == positions@[src[k]] && first_paulis@[k]
                        == paulis@[src[k]],
                forall|a: int, b: int| 0 <= a < b < src.len() ==> src[a] < src[b],
                forall|m: int|
                    0 <= m < j ==> exists|k: int|
                        0 <= k < src.len() && #[trigger] first_positions@[k] == #[trigger] positions@[m],
            decreases positions@.len() - j,
        {
            let position = positions[j];
            let mut seen = false;
            let mut k: usize = 0;
            while k < first_positions.len()
                invariant
                    k <= first_positions@.len(),
                    seen ==> exists|w: int| 0 <= w < k && #[trigger] first_positions@[w] == position,
                    !seen ==> forall|w: int| 0 <= w < k ==> #[trigger] first_positions@[w] != position,
                decreases first_positions@.len() - k,
            {
                if first_positions[k] == position {
                    seen = true;
                }
                k += 1;
            }
            if !seen {
                let ghost before = first_positions@;
                first_positions.push(position);
                first_paulis.push(paulis[j]);
                proof {
                    assert forall|m: int| 0 <= m < j implies positions@[m] != positions@[j as int] by {
                        let w = choose|w: int|
                            0 <= w < before.len() && #[trigger] before[w] == #[trigger] positions@[m];
                        assert(before[w] != position);
                    }
                    assert(is_first(positions@, j as int));
                    src = src.push(j as int);
                    assert(first_positions@[before.len() as int] == positions@[j as int]);
                    assert forall|m: int| 0 <= m < j + 1 implies exists|k: int|
                        0 <= k < src.len() && #[trigger] first_positions@[k] == #[trigger] positions@[m] by {
                        if m < j {
                            let w = choose|w: int|
                                0 <= w < before.len() && #[trigger] before[w] == #[trigger] positions@[m];
                            assert(first_positions@[w] == positions@[m]);
                        }
                    }
                }
            } else {
                proof {
                    let w = choose|w: int|
                        0 <= w < first_positions@.len() && #[trigger] first_positions@[w] == position;
                    assert(first_positions@[w] == positions@[j as int]);
                }
            }
            j += 1;
        }
        proof {
            assert forall|i: int| 0 <= i < first_positions@.len() implies #[trigger] first_positions@[i]
                < length by {
                assert(is_first(positions@, src[i]));
            }
            assert forall|i: int| 0 <= i < first_positions@.len() implies first_paulis@[i]
                == target[first_positions@[i] as int] by {
                assert(is_first(positions@, src[i]));
                lemma_listed_value(positions@, paulis@, src[i]);
            }
            assert forall|a: int, b: int| 0 <= a < b < first_positions@.len() implies first_positions@[a]
                != first_positions@[b] by {
                assert(src[a] < src[b]);
                assert(is_first(positions@, src[b]));
            }
            assert forall|pos: int| 0 <= pos < length && #[trigger] target[pos] != Pauli::I implies exists|
                i: int,
            | 0 <= i < first_positions@.len() && #[trigger] first_positions@[i] == pos by {
                let c = choose|c: int| #[trigger] is_first(positions@, c) && positions@[c] == pos;
                let k = choose|k: int|
                    0 <= k < src.len() && #[trigger] first_positions@[k] == #[trigger] positions@[c];
                assert(first_positions@[k] == pos);
            }
        }
        Self::build(length, first_positions, first_paulis, Ghost(target))
    }

    /// Builds a new Pauli operator, or returns an error if the numbers of
    /// positions and Paulis are different or if a position is greater or
    /// equal to the length.
    #[verifier::loop_isolation(false)]
    pub fn try_new(length: usize, positions: Vec<usize>, paulis: Vec<Pauli>) -> (r: Result<
        Self,
        PauliError,
    >)
        ensures
            positions@.len() != paulis@.len() ==> r == Err::<Self, PauliError>(
                PauliError::IncompatibleLength(positions.len(), paulis.len()),
            ),
            positions@.len() == paulis@.len() && !in_bounds(positions@, length) ==> exists|i: int|
                first_out_of_bound(positions@, length, i) && r == Err::<Self, PauliError>(
                    PauliError::OutOfBound(positions@[i], length),
                ),
            positions@.len() == paulis@.len() && in_bounds(positions@, length) ==> r is Ok
                && r->Ok_0.built_from(length, positions@, paulis@),
    {
        if positions.len() != paulis.len() {
            return Err(PauliError::IncompatibleLength(positions.len(), paulis.len()));
        }
        let mut i: usize = 0;
        while i < positions.len()
            invariant
                i <= positions@.len(),
                forall|j: int| 0 <= j < i ==> positions@[j] < length,
            decreases positions@.len() - i,
        {
            if positions[i] >= length {
                proof {
                    assert(first_out_of_bound(positions@, length, i as int));
                }
                return Err(PauliError::OutOfBound(positions[i], length));
            }
            i += 1;
        }
        Ok(Self::new(length, positions, paulis))
    }

    /// Creates a Pauli operator of zero length.
    pub fn empty() -> (r: Self)
        ensures
            r.wf(),
            r.spec_len() == 0,
            r.entries() == Seq::<(usize, Pauli)>::empty(),
            r@ == Seq::<Pauli>::empty(),
    {
        let r = PauliOperator { paulis: store_empty(0) };
        proof {
            assert(r@ =~= Seq::<Pauli>::empty());
        }
        r
    }

    /// Returns the stored (position, Pauli) pairs, in ascending order of position.
    pub fn iter(&self) -> (r: Vec<(usize, Pauli)>)
        ensures
            r@ == self.entries(),
    {
        store_entries(&self.paulis)
    }

    /// Returns the Pauli at the given position
    /// or None if the position is out of bound.
    pub fn get(&self, position: usize) -> (r: Option<Pauli>)
        requires
            self.wf(),
        ensures
            r == if position < self.spec_len() {
                Some(self@[position as int])
            } else {
                None
            },
    {
        match store_get(&self.paulis, position) {
            Some(p) => {
                proof {
                    lemma_contains_value(self.entries(), position, p);
                    let k = choose|k: int|
                        0 <= k < self.entries().len() && self.entries()[k] == (position, p);
                    assert(self.entries()[k].0 < self.spec_len());
                }
                Some(p)
            },
            None => {
                if position < self.len() {
                    Some(Pauli::I)
                } else {
                    None
                }
            },
        }
    }

    /// Returns the length of the operator.
    pub fn len(&self) -> (r: usize)
        ensures
            r == self.spec_len(),
    {
        store_dim(&self.paulis)
    }

    /// Returns the number of stored Paulis, which for a well-formed operator
    /// is the number of positions at which it is not the identity.
    pub fn weight(&self) -> (r: usize)
        ensures
            r == self.entries().len(),
            self.wf() ==> marks_non_trivial(
                self@,
                self.entries().map_values(|e: (usize, Pauli)| e.0),
            ),
    {
        proof {
            if self.wf() {
                Self::lemma_entries_mark_view(*self);
            }
        }
        store_nnz(&self.paulis)
    }

    /// Returns a slice of the positions
    /// where the element is not identity, in ascending order.
    pub fn non_trivial_positions(&self) -> (r: &[usize])
        requires
            self.wf(),
        ensures
            r@ == self.entries().map_values(|e: (usize, Pauli)| e.0),
            marks_non_trivial(self@, r@),
    {
        let r = store_indices(&self.paulis);
        proof {
            assert(r@ =~= self.entries().map_values(|e: (usize, Pauli)| e.0));
            Self::lemma_entries_mark_view(*self);
        }
        r
    }

    /// The stored positions are exactly the positions at which the operator
    /// is not the identity, and each stored Pauli is the Pauli at its position.
    pub proof fn lemma_entries_mark_view(op: Self)
        requires
            op.wf(),
        ensures
            marks_non_trivial(op@, op.entries().map_values(|e: (usize, Pauli)| e.0)),
            forall|k: int|
                0 <= k < op.entries().len() ==> op@[(#[trigger] op.entries()[k]).0 as int]
                    == op.entries()[k].1,
    {
        let e = op.entries();
        let positions = e.map_values(|e: (usize, Pauli)| e.0);
        assert forall|k: int| 0 <= k < e.len() implies op@[(#[trigger] e[k]).0 as int] == e[k].1 by {
            lemma_value_at_entry(e, k);
        }
        assert forall|i: int, j: int| 0 <= i < j < positions.len() implies positions[i]
            < positions[j] by {
            assert(e[i].0 < e[j].0);
        }
        assert forall|k: int| 0 <= k < positions.len() implies (#[trigger] positions[k]) < op@.len()
            && op@[positions[k] as int] != Pauli::I by {
            assert(e[k].0 < op.spec_len());
        }
        assert forall|p: int| 0 <= p < op@.len() && #[trigger] op@[p] != Pauli::I implies exists|
            k: int,
        | 0 <= k < positions.len() && #[trigger] positions[k] == p by {
            assert(has_entry(e, p));
            let k = choose|k: int| 0 <= k < e.len() && #[trigger] e[k].0 == p;
            assert(positions[k] == p);
        }
    }

    /// Converts a PauliOperator to a Vec of its non trivial positions
    /// consumming the operator.
    pub fn into_raw_positions(self) -> (r: Vec<usize>)
        ensures
            r@ == self.entries().map_values(|e: (usize, Pauli)| e.0),
    {
        let r = store_into_raw(self.paulis).0;
        proof {
            assert(r@ =~= self.entries().map_values(|e: (usize, Pauli)| e.0));
        }
        r
    }

    /// Converts a PauliOperator to a Vec of the Paulis
    /// consumming the operator.
    pub fn into_raw_paulis(self) -> (r: Vec<Pauli>)
        ensures
            r@ == self.entries().map_values(|e: (usize, Pauli)| e.1),
    {
        let r = store_into_raw(self.paulis).1;
        proof {
            assert(r@ =~= self.entries().map_values(|e: (usize, Pauli)| e.1));
        }
        r
    }

    /// Converts a PauliOperator to a Vec of the positions and
    /// a Vec of Paulis consumming the operator.
    pub fn into_raw(self) -> (r: (Vec<usize>, Vec<Pauli>))
        ensures
            r.0@ == self.entries().map_values(|e: (usize, Pauli)| e.0),
            r.1@ == self.entries().map_values(|e: (usize, Pauli)| e.1),
    {
        let r = store_into_raw(self.paulis);
        proof {
            assert(r.0@ =~= self.entries().map_values(|e: (usize, Pauli)| e.0));
            assert(r.1@ =~= self.entries().map_values(|e: (usize, Pauli)| e.1));
        }
        r
    }
}

/// The Pauli that a step of a merge gives for its position: the stored
/// one where a single operator holds the position, the product where both do.
pub open spec fn step_product(step: Merged) -> Pauli {
    match step {
        Merged::Left(_, p) => p,
        Merged::Right(_, q) => q,
        Merged::Both(_, p, q) => p.times(q),
    }
}

/// The number of anticommuting pairs among the first `k` overlaps.
pub open spec fn overlap_count(overlaps: Seq<(usize, Pauli, Pauli)>, k: nat) -> nat
    decreases k,
{
    if k == 0 {
        0
    } else {
        overlap_count(overlaps, (k - 1) as nat) + if !overlaps[k - 1].1.commutes(overlaps[k - 1].2) {
            1nat
        } else {
            0nat
        }
    }
}

/// The triples list, in ascending order of position, exactly the positions
/// that both lists of entries hold, each with the two stored Paulis.
pub open spec fn is_overlap_of(
    overlaps: Seq<(usize, Pauli, Pauli)>,
    a: Seq<(usize, Pauli)>,
    b: Seq<(usize, Pauli)>,
) -> bool {
    &&& forall|i: int, j: int| 0 <= i < j < overlaps.len() ==> overlaps[i].0 < overlaps[j].0
    &&& forall|k: int|
        0 <= k < overlaps.len() ==> a.contains(((#[trigger] overlaps[k]).0, overlaps[k].1))
            && b.contains((overlaps[k].0, overlaps[k].2))
    &&& forall|pos: int|
        has_entry(a, pos) && has_entry(b, pos) ==> exists|k: int|
            0 <= k < overlaps.len() && #[trigger] overlaps[k].0 == pos
}

impl PauliOperator {
    /// Counting the anticommuting pairs among the overlaps below a position
    /// is counting the positions below it at which the operators anticommute.
    /// Returns the number of overlaps below the position.
    proof fn lemma_overlap_count(
        a: Self,
        b: Self,
        overlaps: Seq<(usize, Pauli, Pauli)>,
        n: nat,
    ) -> (k: nat)
        requires
            a.wf(),
            b.wf(),
            is_overlap_of(overlaps, a.entries(), b.entries()),
        ensures
            k <= overlaps.len(),
            forall|j: int| 0 <= j < k ==> (#[trigger] overlaps[j]).0 < n,
            forall|j: int| k <= j < overlaps.len() ==> (#[trigger] overlaps[j]).0 >= n,
            overlap_count(overlaps, k) == anticommuting_count(a@, b@, n),
        decreases n,
    {
        if n == 0 {
            0
        } else {
            let k0 = Self::lemma_overlap_count(a, b, overlaps, (n - 1) as nat);
            let pos = (n - 1) as int;
            if k0 < overlaps.len() && overlaps[k0 as int].0 == pos {
                let t = overlaps[k0 as int];
                lemma_contains_value(a.entries(), t.0, t.1);
                lemma_contains_value(b.entries(), t.0, t.2);
                let ia = choose|i: int| 0 <= i < a.entries().len() && a.entries()[i] == (t.0, t.1);
                let ib = choose|i: int| 0 <= i < b.entries().len() && b.entries()[i] == (t.0, t.2);
                assert(a.entries()[ia].0 < a.spec_len());
                assert(b.entries()[ib].0 < b.spec_len());
                assert forall|j: int| k0 + 1 <= j < overlaps.len() implies (#[trigger] overlaps[j]).0
                    >= n by {
                    assert(overlaps[k0 as int].0 < overlaps[j].0);
                }
                k0 + 1
            } else {
                assert forall|j: int| 0 <= j < overlaps.len() implies (#[trigger] overlaps[j]).0
                    != pos by {
                    if j > k0 {
                        assert(overlaps[k0 as int].0 < overlaps[j].0);
                    }
                }
                if pos < a@.len() && pos < b@.len() {
                    if has_entry(a.entries(), pos) && has_entry(b.entries(), pos) {
                        let w = choose|w: int| 0 <= w < overlaps.len() && #[trigger] overlaps[w].0 == pos;
                        assert(overlaps[w].0 != pos);
                    }
                    assert(a@[pos] == Pauli::I || b@[pos] == Pauli::I);
                }
                k0
            }
        }
    }

    /// Checks if two operators commute: they do when the number of positions
    /// at which their Paulis anticommute is even. The lengths may differ; a
    /// position that one operator does not have counts as the identity.
    pub fn commutes_with(&self, other: &Self) -> (r: bool)
        requires
            self.wf(),
            other.wf(),
        ensures
            r == (anticommuting_count(self@, other@, self.spec_len()) % 2 == 0),
    {
        let overlaps = store_overlaps(&self.paulis, &other.paulis);
        let mut even = true;
        let mut i: usize = 0;
        while i < overlaps.len()
            invariant
                i <= overlaps@.len(),
                even == (overlap_count(overlaps@, i as nat) % 2 == 0),
            decreases overlaps@.len() - i,
        {
            let (_, p, q) = overlaps[i];
            if p.anticommutes_with(q) {
                even = !even;
            }
            i += 1;
        }
        proof {
            let k = Self::lemma_overlap_count(*self, *other, overlaps@, self.spec_len());
            if k < overlaps@.len() {
                let t = overlaps@[k as int];
                let ia = choose|i: int|
                    0 <= i < self.entries().len() && self.entries()[i] == (t.0, t.1);
                assert(self.entries()[ia].0 < self.spec_len());
            }
        }
        even
    }

    /// Checks if two operators anticommute: they do when the number of
    /// positions at which their Paulis anticommute is odd.
    pub fn anticommutes_with(&self, other: &Self) -> (r: bool)
        requires
            self.wf(),
            other.wf(),
        ensures
            r == (anticommuting_count(self@, other@, self.spec_len()) % 2 == 1),
    {
        !self.commutes_with(other)
    }

    /// The operator that holds `kept` wherever this one holds a Pauli other
    /// than the identity and `dropped`, and the identity elsewhere.
    #[verifier::loop_isolation(false)]
    fn project(&self, dropped: Pauli, kept: Pauli) -> (r: Self)
        requires
            self.wf(),
            kept != Pauli::I,
        ensures
            r.wf(),
            r.spec_len() == self.spec_len(),
            r@ == Seq::new(
                self.spec_len(),
                |pos: int|
                    if self@[pos] == Pauli::I || self@[pos] == dropped {
                        Pauli::I
                    } else {
                        kept
                    },
            ),
    {
        let entries = store_entries(&self.paulis);
        let ghost target = Seq::new(
            self.spec_len(),
            |pos: int|
                if self@[pos] == Pauli::I || self@[pos] == dropped {
                    Pauli::I
                } else {
                    kept
                },
        );
        let mut positions: Vec<usize> = Vec::new();
        let mut paulis: Vec<Pauli> = Vec::new();
        let mut i: usize = 0;
        while i < entries.len()
            invariant
                i <= entries@.len(),
                positions@.len() == i,
                paulis@.len() == i,
                forall|k: int| 0 <= k < i ==> #[trigger] positions@[k] == entries@[k].0,
                forall|k: int|
                    0 <= k < i ==> #[trigger] paulis@[k] == (if entries@[k].1 == dropped {
                        Pauli::I
                    } else {
                        kept
                    }),
            decreases entries@.len() - i,
        {
            let (position, pauli) = entries[i];
            positions.push(position);
            if pauli != dropped {
                paulis.push(kept);
            } else {
                paulis.push(Pauli::I);
            }
            i += 1;
        }
        proof {
            let e = self.entries();
            assert forall|k: int| 0 <= k < positions@.len() implies positions@[k] < self.spec_len()
                && paulis@[k] == target[positions@[k] as int] by {
                lemma_value_at_entry(e, k);
                assert(e[k].0 < self.spec_len());
            }
            assert forall|a: int, b: int| 0 <= a < b < positions@.len() implies positions@[a]
                != positions@[b] by {
                assert(e[a].0 < e[b].0);
            }
            assert forall|pos: int|
                0 <= pos < self.spec_len() && #[trigger] target[pos] != Pauli::I implies exists|
                k: int,
            | 0 <= k < positions@.len() && #[trigger] positions@[k] == pos by {
                assert(has_entry(e, pos));
                let k = choose|k: int| 0 <= k < e.len() && #[trigger] e[k].0 == pos;
                assert(positions@[k] == pos);
            }
        }
        Self::build(self.len(), positions, paulis, Ghost(target))
    }

    /// Returns the X part of the operator: X wherever the operator holds X
    /// or Y, the identity elsewhere.
    pub fn x_part(&self) -> (r: Self)
        requires
            self.wf(),
        ensures
            r.wf(),
            r.spec_len() == self.spec_len(),
            r@ == Seq::new(self.spec_len(), |pos: int| self@[pos].x_component()),
    {
        let r = self.project(Pauli::Z, Pauli::X);
        proof {
            assert(r@ =~= Seq::new(self.spec_len(), |pos: int| self@[pos].x_component()));
        }
        r
    }

    /// Returns the Z part of the operator: Z wherever the operator holds Y
    /// or Z, the identity elsewhere.
    pub fn z_part(&self) -> (r: Self)
        requires
            self.wf(),
        ensures
            r.wf(),
            r.spec_len() == self.spec_len(),
            r@ == Seq::new(self.spec_len(), |pos: int| self@[pos].z_component()),
    {
        let r = self.project(Pauli::X, Pauli::Z);
        proof {
            assert(r@ =~= Seq::new(self.spec_len(), |pos: int| self@[pos].z_component()));
        }
        r
    }

    /// Returns two operators such that their product is the
    /// operator itself and the first contains only Xs and
    /// the second only Zs.
    pub fn partition_x_and_z(&self) -> (r: (Self, Self))
        requires
            self.wf(),
        ensures
            r.0.wf(),
            r.1.wf(),
            r.0.spec_len() == self.spec_len(),
            r.1.spec_len() == self.spec_len(),
            r.0@ == Seq::new(self.spec_len(), |pos: int| self@[pos].x_component()),
            r.1@ == Seq::new(self.spec_len(), |pos: int| self@[pos].z_component()),
            product_string(r.0@, r.1@) == self@,
    {
        let r = (self.x_part(), self.z_part());
        proof {
            assert(product_string(r.0@, r.1@) =~= self@);
        }
        r
    }

    /// Returns the element-wise product of two operators of the same length.
    #[verifier::loop_isolation(false)]
    pub fn multiply(&self, other: &Self) -> (r: Self)
        requires
            self.wf(),
            other.wf(),
            self.spec_len() == other.spec_len(),
        ensures
            r.wf(),
            r.spec_len() == self.spec_len(),
            r@ == product_string(self@, other@),
    {
        let steps = store_union(&self.paulis, &other.paulis);
        let ghost target = product_string(self@, other@);
        let mut positions: Vec<usize> = Vec::new();
        let mut paulis: Vec<Pauli> = Vec::new();
        let mut i: usize = 0;
        while i < steps.len()
            invariant
                i <= steps@.len(),
                positions@.len() == i,
                paulis@.len() == i,
                forall|k: int| 0 <= k < i ==> #[trigger] positions@[k] == steps@[k].position(),
                forall|k: int| 0 <= k < i ==> #[trigger] paulis@[k] == step_product(steps@[k]),
            decreases steps@.len() - i,
        {
            match steps[i] {
                Merged::Left(position, p) => {
                    positions.push(position);
                    paulis.push(p);
                },
                Merged::Right(position, q) => {
                    positions.push(position);
                    paulis.push(q);
                },
                Merged::Both(position, p, q) => {
                    positions.push(position);
                    paulis.push(p.multiply(q));
                },
            }
            i += 1;
        }
        proof {
            let ea = self.entries();
            let eb = other.entries();
            assert forall|k: int| 0 <= k < positions@.len() implies positions@[k] < self.spec_len()
                && paulis@[k] == target[positions@[k] as int] by {
                match steps@[k] {
                    Merged::Left(pos, p) => {
                        lemma_contains_value(ea, pos, p);
                        let w = choose|w: int| 0 <= w < ea.len() && ea[w] == (pos, p);
                        assert(ea[w].0 < self.spec_len());
                    },
                    Merged::Right(pos, q) => {
                        lemma_contains_value(eb, pos, q);
                        let w = choose|w: int| 0 <= w < eb.len() && eb[w] == (pos, q);
                        assert(eb[w].0 < other.spec_len());
                    },
                    Merged::Both(pos, p, q) => {
                        lemma_contains_value(ea, pos, p);
                        lemma_contains_value(eb, pos, q);
                        let w = choose|w: int| 0 <= w < ea.len() && ea[w] == (pos, p);
                        assert(ea[w].0 < self.spec_len());
                    },
                }
            }
            assert forall|a: int, b: int| 0 <= a < b < positions@.len() implies positions@[a]
                != positions@[b] by {
                assert(steps@[a].position() < steps@[b].position());
            }
            assert forall|pos: int|
                0 <= pos < self.spec_len() && #[trigger] target[pos] != Pauli::I implies exists|
                k: int,
            | 0 <= k < positions@.len() && #[trigger] positions@[k] == pos by {
                assert(has_entry(ea, pos) || has_entry(eb, pos));
                let k = choose|k: int| 0 <= k < steps@.len() && #[trigger] steps@[k].position() == pos;
                assert(positions@[k] == pos);
            }
        }
        Self::build(self.len(), positions, paulis, Ghost(target))
    }

    /// Returns the element-wise product of two operators
    /// or an Error if they have different lengths.
    pub fn multiply_with(&self, other: &Self) -> (r: Result<Self, PauliError>)
        requires
            self.wf(),
            other.wf(),
        ensures
            self.spec_len() != other.spec_len() ==> r == Err::<Self, PauliError>(
                PauliError::IncompatibleLength(
                    self.spec_len() as usize,
                    other.spec_len() as usize,
                ),
            ),
            self.spec_len() == other.spec_len() ==> r is Ok && r->Ok_0.wf() && r->Ok_0.spec_len()
                == self.spec_len() && r->Ok_0@ == product_string(self@, other@),
    {
        if self.len() != other.len() {
            Err(PauliError::IncompatibleLength(self.len(), other.len()))
        } else {
            Ok(self.multiply(other))
        }
    }
}

impl PauliOperator {
    /// Two well-formed operators of the same length that hold the same Pauli
    /// at every position store the same entries.
    pub proof fn lemma_view_determines(a: Self, b: Self)
        requires
            a.wf(),
            b.wf(),
            a@ == b@,
        ensures
            a.spec_len() == b.spec_len(),
            a.entries() == b.entries(),
    {
        let ea = a.entries();
        let eb = b.entries();
        assert(a@.len() == a.spec_len());
        assert(b@.len() == b.spec_len());
        assert forall|pos: int| has_entry(ea, pos) == has_entry(eb, pos) && (has_entry(ea, pos)
            ==> value_at(ea, pos) == value_at(eb, pos)) by {
            if has_entry(ea, pos) {
                let k = choose|k: int| 0 <= k < ea.len() && #[trigger] ea[k].0 == pos;
                lemma_value_at_entry(ea, k);
                assert(ea[k].0 < a.spec_len());
                assert(a@[pos] == value_at(ea, pos));
                assert(b@[pos] == value_at(eb, pos));
            }
            if has_entry(eb, pos) {
                let k = choose|k: int| 0 <= k < eb.len() && #[trigger] eb[k].0 == pos;
                lemma_value_at_entry(eb, k);
                assert(eb[k].0 < b.spec_len());
                assert(a@[pos] == value_at(ea, pos));
                assert(b@[pos] == value_at(eb, pos));
            }
        }
        lemma_entries_determined(ea, eb);
    }

    /// Commutation of sparse operators is symmetric, whatever their lengths.
    pub proof fn lemma_commutes_symmetric(a: Self, b: Self)
        ensures
            anticommuting_count(a@, b@, a.spec_len()) == anticommuting_count(b@, a@, b.spec_len()),
    {
        let la = a.spec_len();
        let lb = b.spec_len();
        if la <= lb {
            lemma_anticommuting_count_saturates(a@, b@, la, lb);
        } else {
            lemma_anticommuting_count_saturates(a@, b@, lb, la);
        }
        lemma_anticommuting_count_symmetric(a@, b@, lb);
    }

    /// An operator that is built again from the stored positions and Paulis
    /// of a well-formed operator, with the same length, is equal to it: the
    /// two have the same length and the same entries, which is what `==` tests.
    pub proof fn lemma_round_trip(op: Self, length: usize, rebuilt: Self)
        requires
            op.wf(),
            length == op.spec_len(),
            rebuilt.built_from(
                length,
                op.entries().map_values(|e: (usize, Pauli)| e.0),
                op.entries().map_values(|e: (usize, Pauli)| e.1),
            ),
        ensures
            rebuilt@ == op@,
            rebuilt.spec_len() == op.spec_len(),
            rebuilt.entries() == op.entries(),
    {
        let e = op.entries();
        let positions = e.map_values(|e: (usize, Pauli)| e.0);
        let paulis = e.map_values(|e: (usize, Pauli)| e.1);
        assert forall|k: int| 0 <= k < positions.len() implies is_first(positions, k) by {
            assert forall|j: int| 0 <= j < k implies positions[j] != positions[k] by {
                assert(e[j].0 < e[k].0);
            }
        }
        assert forall|pos: int| 0 <= pos < length implies listed_value(positions, paulis, pos)
            == op@[pos] by {
            if has_entry(e, pos) {
                let k = choose|k: int| 0 <= k < e.len() && #[trigger] e[k].0 == pos;
                lemma_value_at_entry(e, k);
                assert(positions[k] == pos);
                assert(is_first(positions, k));
                lemma_listed_value(positions, paulis, k);
            } else {
                if exists|i: int| #[trigger] is_first(positions, i) && positions[i] == pos {
                    let i = choose|i: int| #[trigger] is_first(positions, i) && positions[i] == pos;
                    assert(e[i].0 == pos);
                }
            }
        }
        assert(rebuilt@ =~= op@);
        Self::lemma_view_determines(rebuilt, op);
    }

    /// The product of a well-formed operator with itself is the operator of
    /// the same length that is the identity everywhere, and stores nothing.
    pub proof fn lemma_self_product(op: Self, product: Self)
        requires
            op.wf(),
            product.wf(),
            product.spec_len() == op.spec_len(),
            product@ == product_string(op@, op@),
        ensures
            product@ == Seq::new(op.spec_len(), |pos: int| Pauli::I),
            product.entries() == Seq::<(usize, Pauli)>::empty(),
    {
        assert(product@ =~= Seq::new(op.spec_len(), |pos: int| Pauli::I));
        let e = product.entries();
        if e.len() > 0 {
            lemma_value_at_entry(e, 0);
            assert(e[0].0 < product.spec_len());
            assert(product@[e[0].0 as int] == e[0].1);
        }
        assert(e =~= Seq::<(usize, Pauli)>::empty());
    }
}

impl std::ops::Mul<&PauliOperator> for &PauliOperator {
    type Output = PauliOperator;

    /// The element-wise product of two operators of the same length.
    fn mul(self, other: &PauliOperator) -> (r: PauliOperator)
        ensures
            r.wf(),
            r.spec_len() == self.spec_len(),
            r@ == product_string(self@, other@),
    {
        self.multiply(other)
    }
}

/// The product is not given as a spec value: what `*` returns is stated
/// by the `ensures` of `mul`.
impl vstd::std_specs::ops::MulSpecImpl<&PauliOperator> for &PauliOperator {
    open spec fn obeys_mul_spec() -> bool {
        false
    }

    open spec fn mul_req(self, other: &PauliOperator) -> bool {
        self.wf() && other.wf() && self.spec_len() == other.spec_len()
    }

    open spec fn mul_spec(self, other: &PauliOperator) -> PauliOperator {
        *self
    }
}

} // verus!
