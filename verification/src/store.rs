//! The sparse vector that backs a sparse operator, and what is relied on of it.
//!
//! The contracts of the functions in this file are not proved: each restates
//! what the `sprs` crate does, over the two names `stored_dim` and
//! `stored_entries`.

use crate::entries::{has_entry, strictly_increasing};
use crate::pauli::Pauli;
use sprs::vec::{NnzEither, SparseIterTools};
use sprs::CsVec;
use vstd::prelude::*;

verus! {

/// A sparse vector of Paulis, kept by the `sprs` crate: a dimension, and
/// (index, value) pairs ordered by index.
#[verifier::external_body]
#[derive(Debug, Hash)]
pub struct SparseStore {
    inner: CsVec<Pauli>,
}

/// The dimension that a sparse vector was made with.
pub uninterp spec fn stored_dim(v: SparseStore) -> nat;

/// The (index, value) pairs that a sparse vector holds, in storage order.
pub uninterp spec fn stored_entries(v: SparseStore) -> Seq<(usize, Pauli)>;

/// One step of a merge of two sparse vectors: an index that only the left
/// vector holds, one that only the right vector holds, or one that both hold.
#[derive(Debug, Clone, Copy, PartialEq, Eq, Structural)]
pub enum Merged {
    Left(usize, Pauli),
    Right(usize, Pauli),
    Both(usize, Pauli, Pauli),
}

impl Merged {
    /// The index that the step is about.
    pub open spec fn position(self) -> usize {
        match self {
            Merged::Left(i, _) => i,
            Merged::Right(i, _) => i,
            Merged::Both(i, _, _) => i,
        }
    }
}

/// `CsVec::new_from_unsorted` of sprs, on indices that are all different and
/// below the dimension, with as many values as indices: it succeeds, and the
/// vector holds the given pairs, each once, ordered by index.
#[verifier::external_body]
pub(crate) fn store_new(length: usize, positions: Vec<usize>, paulis: Vec<Pauli>) -> (v: SparseStore)
    requires
        positions@.len() == paulis@.len(),
        forall|i: int| 0 <= i < positions@.len() ==> positions@[i] < length,
        forall|i: int, j: int| 0 <= i < j < positions@.len() ==> positions@[i] != positions@[j],
    ensures
        stored_dim(v) == length,
        strictly_increasing(stored_entries(v)),
        stored_entries(v).len() == positions@.len(),
        forall|i: int|
            0 <= i < positions@.len() ==> stored_entries(v).contains(
                (#[trigger] positions@[i], paulis@[i]),
            ),
        forall|k: int|
            0 <= k < stored_entries(v).len() ==> exists|i: int|
                0 <= i < positions@.len() && (#[trigger] positions@[i], paulis@[i])
                    == #[trigger] stored_entries(v)[k],
{
    SparseStore { inner: CsVec::new_from_unsorted(length, positions, paulis).ok().unwrap() }
}

/// `CsVec::empty` of sprs: a vector of the given dimension that holds nothing.
#[verifier::external_body]
pub(crate) fn store_empty(dim: usize) -> (v: SparseStore)
    ensures
        stored_dim(v) == dim,
        stored_entries(v) == Seq::<(usize, Pauli)>::empty(),
{
    SparseStore { inner: CsVec::empty(dim) }
}

/// `Clone::clone` of sprs's `CsVec`: a vector of the same dimension that
/// holds the same pairs.
#[verifier::external_body]
pub(crate) fn store_clone(v: &SparseStore) -> (r: SparseStore)
    ensures
        stored_dim(r) == stored_dim(*v),
        stored_entries(r) == stored_entries(*v),
{
    SparseStore { inner: v.inner.clone() }
}

/// `PartialEq::eq` of sprs's `CsVec`, as derived: the two vectors have the
/// same dimension and hold the same pairs in the same order.
#[verifier::external_body]
pub(crate) fn store_eq(a: &SparseStore, b: &SparseStore) -> (r: bool)
    ensures
        r == (stored_dim(*a) == stored_dim(*b) && stored_entries(*a) == stored_entries(*b)),
{
    a.inner == b.inner
}

/// `CsVec::dim` of sprs: the dimension the vector was made with.
#[verifier::external_body]
pub(crate) fn store_dim(v: &SparseStore) -> (r: usize)
    ensures
        r == stored_dim(*v),
{
    v.inner.dim()
}

/// `CsVec::nnz` of sprs: the number of stored pairs.
#[verifier::external_body]
pub(crate) fn store_nnz(v: &SparseStore) -> (r: usize)
    ensures
        r == stored_entries(*v).len(),
{
    v.inner.nnz()
}

/// `CsVec::indices` of sprs: the stored indices, in storage order.
#[verifier::external_body]
pub(crate) fn store_indices(v: &SparseStore) -> (r: &[usize])
    ensures
        r@.len() == stored_entries(*v).len(),
        forall|k: int| 0 <= k < r@.len() ==> r@[k] == stored_entries(*v)[k].0,
{
    v.inner.indices()
}

/// `CsVec::get` of sprs, on a vector whose indices increase strictly: the
/// value stored for the index, if there is one.
#[verifier::external_body]
pub(crate) fn store_get(v: &SparseStore, index: usize) -> (r: Option<Pauli>)
    requires
        strictly_increasing(stored_entries(*v)),
    ensures
        match r {
            Some(p) => stored_entries(*v).contains((index, p)),
            None => !has_entry(stored_entries(*v), index as int),
        },
{
    v.inner.get(index).cloned()
}

/// `CsVec::into_raw_storage` of sprs: the stored indices and the stored
/// values, both in storage order.
#[verifier::external_body]
pub(crate) fn store_into_raw(v: SparseStore) -> (r: (Vec<usize>, Vec<Pauli>))
    ensures
        r.0@.len() == stored_entries(v).len(),
        r.1@.len() == stored_entries(v).len(),
        forall|k: int|
            0 <= k < stored_entries(v).len() ==> (r.0@[k], r.1@[k]) == stored_entries(v)[k],
{
    v.inner.into_raw_storage()
}

/// `CsVec::iter` of sprs, collected: the stored pairs in storage order.
#[verifier::external_body]
pub(crate) fn store_entries(v: &SparseStore) -> (r: Vec<(usize, Pauli)>)
    ensures
        r@ == stored_entries(*v),
{
    v.inner.iter().map(|(position, pauli)| (position, *pauli)).collect()
}

/// `SparseIterTools::nnz_zip` of sprs on the iterators of two vectors whose
/// indices increase strictly, collected: one triple for each index that both
/// vectors hold, with the left and the right value, ordered by index.
#[verifier::external_body]
pub(crate) fn store_overlaps(a: &SparseStore, b: &SparseStore) -> (r: Vec<(usize, Pauli, Pauli)>)
    requires
        strictly_increasing(stored_entries(*a)),
        strictly_increasing(stored_entries(*b)),
    ensures
        forall|i: int, j: int| 0 <= i < j < r@.len() ==> r@[i].0 < r@[j].0,
        forall|k: int|
            0 <= k < r@.len() ==> stored_entries(*a).contains(((#[trigger] r@[k]).0, r@[k].1))
                && stored_entries(*b).contains((r@[k].0, r@[k].2)),
        forall|pos: int|
            has_entry(stored_entries(*a), pos) && has_entry(stored_entries(*b), pos)
                ==> exists|k: int| 0 <= k < r@.len() && #[trigger] r@[k].0 == pos,
{
    a.inner.iter().nnz_zip(b.inner.iter()).map(|(position, p, q)| (position, *p, *q)).collect()
}

/// `SparseIterTools::nnz_or_zip` of sprs on the iterators of two vectors
/// whose indices increase strictly, collected: one step for each index that
/// either vector holds, ordered by index, which says where the index was
/// found and gives the value or values stored for it.
#[verifier::external_body]
pub(crate) fn store_union(a: &SparseStore, b: &SparseStore) -> (r: Vec<Merged>)
    requires
        strictly_increasing(stored_entries(*a)),
        strictly_increasing(stored_entries(*b)),
    ensures
        forall|i: int, j: int| 0 <= i < j < r@.len() ==> r@[i].position() < r@[j].position(),
        forall|k: int|
            0 <= k < r@.len() ==> match #[trigger] r@[k] {
                Merged::Left(i, p) => stored_entries(*a).contains((i, p)) && !has_entry(
                    stored_entries(*b),
                    i as int,
                ),
                Merged::Right(i, q) => stored_entries(*b).contains((i, q)) && !has_entry(
                    stored_entries(*a),
                    i as int,
                ),
                Merged::Both(i, p, q) => stored_entries(*a).contains((i, p)) && stored_entries(
                    *b,
                ).contains((i, q)),
            },
        forall|pos: int|
            has_entry(stored_entries(*a), pos) || has_entry(stored_entries(*b), pos)
                ==> exists|k: int| 0 <= k < r@.len() && #[trigger] r@[k].position() == pos,
{
    a.inner.iter().nnz_or_zip(b.inner.iter()).map(|step| match step {
        NnzEither::Left((position, p)) => Merged::Left(position, *p),
        NnzEither::Right((position, q)) => Merged::Right(position, *q),
        NnzEither::Both((position, p, q)) => Merged::Both(position, *p, *q),
    }).collect()
}

} // verus!
