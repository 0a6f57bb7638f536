use pauli::Phase;

#[test]
fn the_four_phases_differ() {
    let all = [Phase::one(), Phase::i(), Phase::minus_one(), Phase::minus_i()];
    for a in 0..4 {
        for b in 0..4 {
            assert_eq!(all[a] == all[b], a == b);
        }
    }
}

#[test]
fn phase_products() {
    assert_eq!(Phase::minus_one() * Phase::i(), Phase::minus_i());
    assert_eq!(Phase::i() * Phase::minus_i(), Phase::one());
    assert_eq!(Phase::i() * Phase::i(), Phase::minus_one());
    assert_eq!(Phase::minus_i() * Phase::minus_i(), Phase::minus_one());
    assert_eq!(Phase::minus_one() * Phase::minus_one(), Phase::one());
    assert_eq!(Phase::one() * Phase::minus_i(), Phase::minus_i());
    assert_eq!(Phase::i().multiply(Phase::minus_one()), Phase::minus_i());
}

#[test]
fn phases_form_the_cyclic_group_generated_by_i() {
    let all = [Phase::one(), Phase::i(), Phase::minus_one(), Phase::minus_i()];
    for a in 0..4 {
        for b in 0..4 {
            assert_eq!(all[a] * all[b], all[(a + b) % 4]);
            assert_eq!(all[a].multiply(all[b]), all[b].multiply(all[a]));
        }
    }
}
