//! Sorted lists of (position, Pauli) pairs, as a sparse operator stores them.

use crate::pauli::Pauli;
use vstd::prelude::*;

verus! {

/// The indices of the entries increase strictly.
pub open spec fn strictly_increasing(e: Seq<(usize, Pauli)>) -> bool {
    forall|i: int, j: int| 0 <= i < j < e.len() ==> e[i].0 < e[j].0
}

/// Some entry has the index `pos`.
pub open spec fn has_entry(e: Seq<(usize, Pauli)>, pos: int) -> bool {
    exists|k: int| 0 <= k < e.len() && #[trigger] e[k].0 == pos
}

/// The value stored for the index `pos`, the identity where none is stored.
pub open spec fn value_at(e: Seq<(usize, Pauli)>, pos: int) -> Pauli {
    if has_entry(e, pos) {
        e[choose|k: int| 0 <= k < e.len() && #[trigger] e[k].0 == pos].1
    } else {
        Pauli::I
    }
}

/// In a list whose indices increase strictly, the value at the index of an
/// entry is the value of that entry.
pub proof fn lemma_value_at_entry(e: Seq<(usize, Pauli)>, k: int)
    requires
        strictly_increasing(e),
        0 <= k < e.len(),
    ensures
        has_entry(e, e[k].0 as int),
        value_at(e, e[k].0 as int) == e[k].1,
{
    let pos = e[k].0 as int;
    assert(e[k].0 == pos);
    let c = choose|c: int| 0 <= c < e.len() && #[trigger] e[c].0 == pos;
    if c < k {
        assert(e[c].0 < e[k].0);
    } else if k < c {
        assert(e[k].0 < e[c].0);
    }
}

/// In a list whose indices increase strictly, a pair that the list contains
/// gives the value at its index.
pub proof fn lemma_contains_value(e: Seq<(usize, Pauli)>, pos: usize, p: Pauli)
    requires
        strictly_increasing(e),
        e.contains((pos, p)),
    ensures
        has_entry(e, pos as int),
        value_at(e, pos as int) == p,
{
    let k = choose|k: int| 0 <= k < e.len() && e[k] == (pos, p);
    lemma_value_at_entry(e, k);
}

/// Two lists whose indices increase strictly, and which hold the same
/// indices with the same values, are the same list.
pub proof fn lemma_entries_determined(e1: Seq<(usize, Pauli)>, e2: Seq<(usize, Pauli)>)
    requires
        strictly_increasing(e1),
        strictly_increasing(e2),
        forall|pos: int| has_entry(e1, pos) == has_entry(e2, pos),
        forall|pos: int| has_entry(e1, pos) ==> value_at(e1, pos) == value_at(e2, pos),
    ensures
        e1 == e2,
    decreases e1.len(),
{
    if e1.len() == 0 {
        if e2.len() > 0 {
            assert(e2[0].0 == e2[0].0 as int);
            assert(has_entry(e2, e2[0].0 as int));
            assert(has_entry(e1, e2[0].0 as int));
        }
        assert(e1 =~= e2);
    } else {
        let l1 = e1.len() - 1;
        lemma_value_at_entry(e1, l1);
        assert(has_entry(e2, e1[l1].0 as int));
        let l2 = e2.len() - 1;
        lemma_value_at_entry(e2, l2);
        assert(has_entry(e1, e2[l2].0 as int));
        let w2 = choose|k: int| 0 <= k < e2.len() && #[trigger] e2[k].0 == e1[l1].0 as int;
        let w1 = choose|k: int| 0 <= k < e1.len() && #[trigger] e1[k].0 == e2[l2].0 as int;
        if w2 < l2 {
            assert(e2[w2].0 < e2[l2].0);
        }
        if w1 < l1 {
            assert(e1[w1].0 < e1[l1].0);
        }
        assert(e1[l1].0 == e2[l2].0);
        assert(e1[l1] == e2[l2]);
        let d1 = e1.drop_last();
        let d2 = e2.drop_last();
        assert forall|pos: int| has_entry(d1, pos) == has_entry(d2, pos) by {
            lemma_prefix_entry(e1, pos);
            lemma_prefix_entry(e2, pos);
        }
        assert forall|pos: int| has_entry(d1, pos) implies value_at(d1, pos) == value_at(
            d2,
            pos,
        ) by {
            lemma_prefix_entry(e1, pos);
            lemma_prefix_entry(e2, pos);
        }
        lemma_entries_determined(d1, d2);
        assert(e1 =~= d1.push(e1[l1]));
        assert(e2 =~= d2.push(e2[l2]));
    }
}

/// Without its last entry, a list whose indices increase strictly holds the
/// indices below the last one, with the same values.
pub proof fn lemma_prefix_entry(e: Seq<(usize, Pauli)>, pos: int)
    requires
        strictly_increasing(e),
        e.len() > 0,
    ensures
        strictly_increasing(e.drop_last()),
        has_entry(e.drop_last(), pos) == (has_entry(e, pos) && pos < e.last().0),
        has_entry(e.drop_last(), pos) ==> value_at(e.drop_last(), pos) == value_at(e, pos),
{
    let d = e.drop_last();
    let l = e.len() - 1;
    if has_entry(d, pos) {
        let k = choose|k: int| 0 <= k < d.len() && #[trigger] d[k].0 == pos;
        assert(e[k].0 == pos);
        assert(e[k].0 < e[l].0);
        lemma_value_at_entry(d, k);
        lemma_value_at_entry(e, k);
    }
    if has_entry(e, pos) && pos < e.last().0 {
        let k = choose|k: int| 0 <= k < e.len() && #[trigger] e[k].0 == pos;
        assert(d[k].0 == pos);
    }
}

} // verus!
