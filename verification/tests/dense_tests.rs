use pauli::{DensePauliOperator, Phase, I, X, Y, Z};

#[test]
fn operator_operator_multiplication() {
    let first = DensePauliOperator::with_phase_and_paulis(Phase::i(), vec![I, X, Y, Z]);
    let second = DensePauliOperator::with_phase_and_paulis(Phase::one(), vec![X, Z, X, Z]);
    let product = DensePauliOperator::with_phase_and_paulis(Phase::minus_i(), vec![X, Y, Z, I]);
    assert_eq!(&first * &second, product);
    assert_eq!(&second * &first, product);
}

#[test]
fn operator_phase_multiplication() {
    let operator = DensePauliOperator::with_phase_and_paulis(Phase::minus_one(), vec![X, Z, I, Y]);
    let phase = Phase::i();
    let product = DensePauliOperator::with_phase_and_paulis(Phase::minus_i(), vec![X, Z, I, Y]);
    assert_eq!(&operator * phase, product);
    assert_eq!(phase * &operator, product);
}

#[test]
fn operator_pauli_multiplication() {
    let operator = DensePauliOperator::with_phase_and_paulis(Phase::minus_one(), vec![Y, X, Z, I]);
    let pauli = Z;
    let product = DensePauliOperator::with_phase_and_paulis(Phase::minus_one(), vec![X, Y, I, Z]);
    assert_eq!(&operator * pauli, product);
    assert_eq!(pauli * &operator, product);
}

#[test]
fn dense_product_accumulates_the_phase() {
    let first = DensePauliOperator::with_phase_and_paulis(Phase::i(), vec![I, X, Y, Z]);
    let second = DensePauliOperator::with_phase_and_paulis(Phase::one(), vec![X, Z, X, Z]);
    let product = first.multiply(&second);
    assert_eq!(product.paulis(), vec![X, Y, Z, I]);
    assert_eq!(product.phase(), Phase::minus_i());
    assert_eq!(product.len(), 4);
}

#[test]
fn dense_methods_agree_with_the_operators() {
    let operator = DensePauliOperator::with_phase_and_paulis(Phase::i(), vec![X, Y, Z]);
    let other = DensePauliOperator::with_paulis(vec![X, X, X]);
    assert_eq!(operator.multiply(&other), &operator * &other);
    assert_eq!(
        &operator * &other,
        DensePauliOperator::with_phase_and_paulis(Phase::i(), vec![I, Z, Y])
    );
    assert_eq!(
        other.multiply_phase(Phase::minus_i()),
        DensePauliOperator::with_phase_and_paulis(Phase::minus_i(), vec![X, X, X])
    );
    assert_eq!(
        other.multiply_pauli(Y),
        DensePauliOperator::with_phase_and_paulis(Phase::minus_i(), vec![Z, Z, Z])
    );
}

#[test]
fn dense_product_phase_stays_a_unit() {
    let units = [Phase::one(), Phase::i(), Phase::minus_one(), Phase::minus_i()];
    let strings = [vec![X, Y, Z, I], vec![Z, Z, X, Y], vec![Y, X, I, Z], vec![I, I, I, I]];
    for a in units {
        for b in units {
            for s in &strings {
                for t in &strings {
                    let left = DensePauliOperator::with_phase_and_paulis(a, s.clone());
                    let right = DensePauliOperator::with_phase_and_paulis(b, t.clone());
                    let phase = (&left * &right).phase();
                    assert!(units.contains(&phase));
                }
            }
        }
    }
}

#[test]
fn dense_commutation() {
    let first_operator = DensePauliOperator::with_paulis(vec![X, Y, Z]);
    let second_operator = DensePauliOperator::with_paulis(vec![Y, Y, Y]);
    let third_operator = DensePauliOperator::with_paulis(vec![I, X, I]);

    assert_eq!(first_operator.commutes_with(&second_operator), true);
    assert_eq!(first_operator.commutes_with(&third_operator), false);
    assert_eq!(second_operator.commutes_with(&third_operator), false);

    assert_eq!(first_operator.anticommutes_with(&second_operator), false);
    assert_eq!(first_operator.anticommutes_with(&third_operator), true);
    assert_eq!(second_operator.anticommutes_with(&third_operator), true);
}

#[test]
fn dense_commutation_is_symmetric() {
    let strings = [vec![X, Y, Z], vec![Y, Y, Y], vec![I, X, I], vec![Z, I, X]];
    for s in &strings {
        for t in &strings {
            let left = DensePauliOperator::with_paulis(s.clone());
            let right = DensePauliOperator::with_paulis(t.clone());
            assert_eq!(left.commutes_with(&right), right.commutes_with(&left));
            assert_eq!(left.anticommutes_with(&right), !left.commutes_with(&right));
        }
    }
}

#[test]
fn dense_non_trivial_positions() {
    let operator = DensePauliOperator::with_paulis(vec![X, I, Y, I, Z, I]);
    assert_eq!(operator.non_trivial_positions(), vec![0, 2, 4]);
    assert_eq!(operator.non_trivial_paulis(), vec![(0, X), (2, Y), (4, Z)]);
    let identity = DensePauliOperator::with_paulis(vec![I, I]);
    assert_eq!(identity.non_trivial_positions(), Vec::<usize>::new());
    assert_eq!(identity.non_trivial_paulis(), vec![]);
}

#[test]
fn dense_accessors() {
    let empty = DensePauliOperator::new();
    assert!(empty.is_empty());
    assert_eq!(empty.len(), 0);
    assert_eq!(empty.phase(), Phase::one());
    assert_eq!(empty, DensePauliOperator::with_paulis(vec![]));

    let operator = DensePauliOperator::with_phase_and_paulis(Phase::minus_one(), vec![X, I, Z]);
    assert!(!operator.is_empty());
    assert_eq!(operator.len(), 3);
    assert_eq!(operator.phase(), Phase::minus_one());
    assert_eq!(operator.paulis(), vec![X, I, Z]);
    assert_eq!(DensePauliOperator::with_paulis(vec![X, I, Z]).phase(), Phase::one());
    assert_eq!(operator.clone(), operator);
}
