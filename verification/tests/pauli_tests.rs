use pauli::{Pauli, Phase, I, X, Y, Z};

const ALL: [Pauli; 4] = [I, X, Y, Z];

#[test]
fn base_commutations() {
    assert!(I.commutes_with(I));
    assert!(I.commutes_with(X));
    assert!(I.commutes_with(Y));
    assert!(I.commutes_with(Z));

    assert!(X.commutes_with(I));
    assert!(X.commutes_with(X));
    assert!(X.anticommutes_with(Y));
    assert!(X.anticommutes_with(Z));

    assert!(Y.commutes_with(I));
    assert!(Y.anticommutes_with(X));
    assert!(Y.commutes_with(Y));
    assert!(Y.anticommutes_with(Z));

    assert!(Z.commutes_with(I));
    assert!(Z.anticommutes_with(X));
    assert!(Z.anticommutes_with(Y));
    assert!(Z.commutes_with(Z));
}

#[test]
fn multiplications() {
    assert_eq!(I * I, I);
    assert_eq!(I * X, X);
    assert_eq!(I * Y, Y);
    assert_eq!(I * Z, Z);

    assert_eq!(X * I, X);
    assert_eq!(X * X, I);
    assert_eq!(X * Y, Z);
    assert_eq!(X * Z, Y);

    assert_eq!(Y * I, Y);
    assert_eq!(Y * X, Z);
    assert_eq!(Y * Y, I);
    assert_eq!(Y * Z, X);

    assert_eq!(Z * I, Z);
    assert_eq!(Z * X, Y);
    assert_eq!(Z * Y, X);
    assert_eq!(Z * Z, I);
}

#[test]
fn pauli_commutations() {
    assert!(I.commutes_with(I));
    assert!(I.commutes_with(X));
    assert!(I.commutes_with(Y));
    assert!(I.commutes_with(Z));

    assert!(X.commutes_with(I));
    assert!(X.commutes_with(X));
    assert!(X.anticommutes_with(Y));
    assert!(X.anticommutes_with(Z));

    assert!(Y.commutes_with(I));
    assert!(Y.anticommutes_with(X));
    assert!(Y.commutes_with(Y));
    assert!(Y.anticommutes_with(Z));

    assert!(Z.commutes_with(I));
    assert!(Z.anticommutes_with(X));
    assert!(Z.anticommutes_with(Y));
    assert!(Z.commutes_with(Z));
}

#[test]
fn multiplication() {
    assert_eq!(I * I, I);
    assert_eq!(I * X, X);
    assert_eq!(I * Y, Y);
    assert_eq!(I * Z, Z);
    assert_eq!(X * I, X);
    assert_eq!(X * X, I);
    assert_eq!(X * Y, Z);
    assert_eq!(X * Z, Y);
    assert_eq!(Y * I, Y);
    assert_eq!(Y * X, Z);
    assert_eq!(Y * Y, I);
    assert_eq!(Y * Z, X);
    assert_eq!(Z * I, Z);
    assert_eq!(Z * X, Y);
    assert_eq!(Z * Y, X);
    assert_eq!(Z * Z, I);
}

#[test]
fn multiplication_with_phase() {
    assert_eq!(I.multiply_with_phase(I), (Phase::one(), I));
    assert_eq!(I.multiply_with_phase(X), (Phase::one(), X));
    assert_eq!(I.multiply_with_phase(Y), (Phase::one(), Y));
    assert_eq!(I.multiply_with_phase(Z), (Phase::one(), Z));
    assert_eq!(X.multiply_with_phase(I), (Phase::one(), X));
    assert_eq!(X.multiply_with_phase(X), (Phase::one(), I));
    assert_eq!(X.multiply_with_phase(Y), (Phase::i(), Z));
    assert_eq!(X.multiply_with_phase(Z), (Phase::minus_i(), Y));
    assert_eq!(Y.multiply_with_phase(I), (Phase::one(), Y));
    assert_eq!(Y.multiply_with_phase(X), (Phase::minus_i(), Z));
    assert_eq!(Y.multiply_with_phase(Y), (Phase::one(), I));
    assert_eq!(Y.multiply_with_phase(Z), (Phase::i(), X));
    assert_eq!(Z.multiply_with_phase(I), (Phase::one(), Z));
    assert_eq!(Z.multiply_with_phase(X), (Phase::i(), Y));
    assert_eq!(Z.multiply_with_phase(Y), (Phase::minus_i(), X));
    assert_eq!(Z.multiply_with_phase(Z), (Phase::one(), I));
}

#[test]
fn multiply_agrees_with_the_operator() {
    for a in ALL {
        for b in ALL {
            assert_eq!(a.multiply(b), a * b);
            assert_eq!(a.multiply_with_phase(b).1, a * b);
        }
    }
}

#[test]
fn phase_free_product_is_commutative() {
    for a in ALL {
        for b in ALL {
            assert_eq!(a * b, b * a);
        }
    }
}

#[test]
fn swapped_products_have_inverse_phases() {
    for a in ALL {
        for b in ALL {
            let (forward_phase, forward) = a.multiply_with_phase(b);
            let (backward_phase, backward) = b.multiply_with_phase(a);
            assert_eq!(forward, backward);
            assert_eq!(forward_phase * backward_phase, Phase::one());
            if a.commutes_with(b) {
                assert_eq!(forward_phase, Phase::one());
                assert_eq!(backward_phase, Phase::one());
            } else {
                assert_ne!(forward_phase, backward_phase);
                assert!(forward_phase == Phase::i() || forward_phase == Phase::minus_i());
                assert!(backward_phase == Phase::i() || backward_phase == Phase::minus_i());
            }
        }
    }
}

#[test]
fn pauli_commutation_is_symmetric() {
    for a in ALL {
        for b in ALL {
            assert_eq!(a.commutes_with(b), b.commutes_with(a));
            assert_eq!(a.anticommutes_with(b), !a.commutes_with(b));
        }
    }
}

#[test]
fn identity_is_the_only_trivial_pauli() {
    assert!(I.is_trivial());
    assert!(!I.is_non_trivial());
    for a in [X, Y, Z] {
        assert!(!a.is_trivial());
        assert!(a.is_non_trivial());
        assert_eq!(a * a, I);
    }
}

#[test]
fn product_in_place() {
    let mut pauli = X;
    pauli *= Y;
    assert_eq!(pauli, Z);
    pauli *= Z;
    assert_eq!(pauli, I);
    let mut phase = Phase::i();
    phase *= Phase::i();
    assert_eq!(phase, Phase::minus_one());
    phase *= Phase::minus_i();
    assert_eq!(phase, Phase::i());
}

#[test]
fn phase_free_product_is_associative() {
    for a in ALL {
        for b in ALL {
            for c in ALL {
                assert_eq!((a * b) * c, a * (b * c));
            }
        }
    }
}
