use pauli::{PauliError, PauliOperator, I, X, Y, Z};

#[test]
fn commutes_with_different_lengths() {
    let long_operator = PauliOperator::new(10, vec![0, 2, 7, 9], vec![X, X, X, X]);
    let short_operator = PauliOperator::new(4, vec![0, 1, 2], vec![Z, Z, Z]);
    assert!(long_operator.commutes_with(&short_operator));
}

#[test]
fn anticommutes_with_different_lengths() {
    let long_operator = PauliOperator::new(10, vec![0, 2, 7, 9], vec![X, Z, X, Z]);
    let short_operator = PauliOperator::new(4, vec![0, 1, 2], vec![Z, Z, Z]);
    assert!(long_operator.anticommutes_with(&short_operator));
}

#[test]
fn two_anticommuting_overlaps_commute() {
    let op1 = PauliOperator::new(5, vec![1, 2, 3], vec![X, Y, Z]);
    let op2 = PauliOperator::new(5, vec![2, 3, 4], vec![X, X, X]);
    assert!(op1.commutes_with(&op2));
    assert!(!op1.anticommutes_with(&op2));
}

#[test]
fn one_anticommuting_overlap_anticommutes() {
    let op1 = PauliOperator::new(5, vec![1, 2, 3], vec![X, Y, Z]);
    let op3 = PauliOperator::new(5, vec![0, 1], vec![Z, Z]);
    assert!(!op1.commutes_with(&op3));
    assert!(op1.anticommutes_with(&op3));
}

#[test]
fn sparse_commutation_is_symmetric() {
    let operators = [
        PauliOperator::new(5, vec![1, 2, 3], vec![X, Y, Z]),
        PauliOperator::new(5, vec![2, 3, 4], vec![X, X, X]),
        PauliOperator::new(5, vec![0, 1], vec![Z, Z]),
        PauliOperator::new(10, vec![0, 2, 7, 9], vec![X, Z, X, Z]),
        PauliOperator::new(4, vec![0, 1, 2], vec![Z, Z, Z]),
        PauliOperator::empty(),
    ];
    for a in &operators {
        for b in &operators {
            assert_eq!(a.commutes_with(b), b.commutes_with(a));
            assert_eq!(a.anticommutes_with(b), !a.commutes_with(b));
        }
    }
}

#[test]
fn multiply_with_different_lengths_fails() {
    let long = PauliOperator::new(5, vec![1, 2, 3], vec![X, Y, Z]);
    let short = PauliOperator::new(4, vec![0, 1], vec![Z, Z]);
    assert_eq!(long.multiply_with(&short), Err(PauliError::IncompatibleLength(5, 4)));
    assert_eq!(short.multiply_with(&long), Err(PauliError::IncompatibleLength(4, 5)));
}

#[test]
fn position_out_of_bound_fails() {
    assert_eq!(PauliOperator::try_new(4, vec![5], vec![X]), Err(PauliError::OutOfBound(5, 4)));
    assert_eq!(PauliOperator::try_new(4, vec![4], vec![X]), Err(PauliError::OutOfBound(4, 4)));
    assert_eq!(
        PauliOperator::try_new(4, vec![1, 7, 9], vec![X, Y, Z]),
        Err(PauliError::OutOfBound(7, 4))
    );
}

#[test]
fn different_numbers_of_positions_and_paulis_fail() {
    assert_eq!(
        PauliOperator::try_new(4, vec![1, 2], vec![X]),
        Err(PauliError::IncompatibleLength(2, 1))
    );
    assert_eq!(
        PauliOperator::try_new(4, vec![9], vec![X, Y, Z]),
        Err(PauliError::IncompatibleLength(1, 3))
    );
}

#[test]
fn try_new_builds_the_operator() {
    let operator = PauliOperator::try_new(5, vec![0, 2, 4], vec![X, Y, Z]);
    assert!(operator.is_ok());
    assert_eq!(operator, Ok(PauliOperator::new(5, vec![0, 2, 4], vec![X, Y, Z])));
}

#[test]
fn positions_are_sorted_at_construction() {
    let operator = PauliOperator::new(6, vec![4, 0, 2], vec![Z, X, Y]);
    assert_eq!(operator.non_trivial_positions(), &[0, 2, 4]);
    assert_eq!(operator.iter(), vec![(0, X), (2, Y), (4, Z)]);
    assert_eq!(operator, PauliOperator::new(6, vec![0, 2, 4], vec![X, Y, Z]));
}

#[test]
fn identities_are_not_stored() {
    let operator = PauliOperator::new(5, vec![0, 1, 3], vec![X, I, Z]);
    assert_eq!(operator.weight(), 2);
    assert_eq!(operator.non_trivial_positions(), &[0, 3]);
    assert_eq!(operator.get(1), Some(I));
    assert_eq!(operator, PauliOperator::new(5, vec![0, 3], vec![X, Z]));
}

#[test]
fn get_returns_the_pauli_at_a_position() {
    let operator = PauliOperator::new(5, vec![0, 2, 4], vec![X, Y, Z]);
    assert_eq!(operator.get(0), Some(X));
    assert_eq!(operator.get(1), Some(I));
    assert_eq!(operator.get(2), Some(Y));
    assert_eq!(operator.get(3), Some(I));
    assert_eq!(operator.get(4), Some(Z));
    assert_eq!(operator.get(5), None);
    assert_eq!(operator.get(10), None);
}

#[test]
fn length_and_weight() {
    let operator = PauliOperator::new(5, vec![0, 2, 4], vec![X, Y, Z]);
    assert_eq!(operator.len(), 5);
    assert_eq!(operator.weight(), 3);
    let empty = PauliOperator::empty();
    assert_eq!(empty.len(), 0);
    assert_eq!(empty.weight(), 0);
    assert_eq!(empty.get(0), None);
    assert_eq!(empty.iter(), vec![]);
}

#[test]
fn iteration_yields_positions_and_paulis() {
    let operator = PauliOperator::new(5, vec![0, 2, 4], vec![X, Y, Z]);
    assert_eq!(operator.iter(), vec![(0, X), (2, Y), (4, Z)]);
    assert_eq!(operator.non_trivial_positions(), &[0, 2, 4]);
}

#[test]
fn x_and_z_parts() {
    let operator = PauliOperator::new(5, vec![0, 2, 4], vec![X, Y, Z]);
    assert_eq!(operator.x_part(), PauliOperator::new(5, vec![0, 2], vec![X, X]));
    assert_eq!(operator.z_part(), PauliOperator::new(5, vec![2, 4], vec![Z, Z]));
    let (x_operator, z_operator) = operator.partition_x_and_z();
    assert_eq!(x_operator, PauliOperator::new(5, vec![0, 2], vec![X, X]));
    assert_eq!(z_operator, PauliOperator::new(5, vec![2, 4], vec![Z, Z]));
    assert_eq!(&x_operator * &z_operator, operator);
}

#[test]
fn sparse_product() {
    let op1 = PauliOperator::new(5, vec![1, 2, 3], vec![X, Y, Z]);
    let op2 = PauliOperator::new(5, vec![2, 3, 4], vec![Y, X, Z]);
    let product = PauliOperator::new(5, vec![1, 3, 4], vec![X, Y, Z]);
    assert_eq!(op1.multiply_with(&op2), Ok(product.clone()));
    assert_eq!(op1.multiply(&op2), product);
    assert_eq!(&op1 * &op2, product);
    assert_eq!(&op2 * &op1, product);
}

#[test]
fn sparse_product_with_itself_is_the_identity() {
    let operators = [
        PauliOperator::new(5, vec![1, 2, 3], vec![X, Y, Z]),
        PauliOperator::new(7, vec![0, 6], vec![Z, X]),
        PauliOperator::new(3, vec![], vec![]),
        PauliOperator::empty(),
    ];
    for operator in &operators {
        let square = operator.multiply_with(operator).unwrap();
        assert_eq!(square.len(), operator.len());
        assert_eq!(square.weight(), 0);
        assert_eq!(square, PauliOperator::new(operator.len(), vec![], vec![]));
    }
}

#[test]
fn sparse_round_trip() {
    let operator = PauliOperator::new(9, vec![7, 1, 4], vec![Y, X, Z]);
    let positions = operator.non_trivial_positions().to_vec();
    let paulis: Vec<_> = operator.iter().into_iter().map(|(_, pauli)| pauli).collect();
    let rebuilt = PauliOperator::try_new(operator.len(), positions, paulis);
    assert_eq!(rebuilt, Ok(operator));
}

#[test]
fn raw_storage() {
    let operator = PauliOperator::new(5, vec![1, 2, 3], vec![X, Y, Z]);
    assert_eq!(operator.clone().into_raw_positions(), vec![1, 2, 3]);
    assert_eq!(operator.clone().into_raw_paulis(), vec![X, Y, Z]);
    let (positions, paulis) = operator.into_raw();
    assert_eq!(positions, vec![1, 2, 3]);
    assert_eq!(paulis, vec![X, Y, Z]);
}

#[test]
fn clone_is_equal() {
    let operator = PauliOperator::new(5, vec![1, 2, 3], vec![X, Y, Z]);
    let copy = operator.clone();
    assert_eq!(copy, operator);
    assert_eq!(copy.len(), 5);
    assert_eq!(copy.iter(), vec![(1, X), (2, Y), (3, Z)]);
}

#[test]
fn first_pauli_of_a_repeated_position_counts() {
    let operator = PauliOperator::new(5, vec![1, 3, 1], vec![X, Z, Y]);
    assert_eq!(operator.weight(), 2);
    assert_eq!(operator.get(1), Some(X));
    assert_eq!(operator.get(3), Some(Z));
    assert_eq!(operator, PauliOperator::new(5, vec![1, 3], vec![X, Z]));
    let hidden = PauliOperator::try_new(5, vec![2, 2], vec![I, Y]).unwrap();
    assert_eq!(hidden.weight(), 0);
    assert_eq!(hidden.get(2), Some(I));
}
