use array_sum::field::Fe;

fn fe(v: u64) -> Fe {
    Fe::from_u64(v)
}

#[test]
fn addition_of_small_values() {
    assert!(fe(2).add(&fe(3)).equals(&fe(5)));
    assert!(!fe(2).add(&fe(3)).equals(&fe(2)));
}

#[test]
fn subtraction_wraps_below_zero() {
    let minus_one = fe(0).sub(&fe(1));
    assert!(!minus_one.equals(&fe(0)));
    assert!(minus_one.equals(&fe(1).neg()));
    assert!(minus_one.add(&fe(1)).is_zero());
    assert!(fe(9).sub(&fe(4)).equals(&fe(5)));
}

#[test]
fn multiplication_of_small_values() {
    assert!(fe(6).mul(&fe(7)).equals(&fe(42)));
    assert!(fe(6).mul(&Fe::zero()).is_zero());
    assert!(fe(6).mul(&Fe::one()).equals(&fe(6)));
}

#[test]
fn negation_of_zero_is_zero() {
    assert!(Fe::zero().neg().is_zero());
    assert!(!fe(5).neg().equals(&fe(5)));
    assert!(fe(5).neg().add(&fe(5)).is_zero());
}

#[test]
fn products_beyond_u64_are_field_values() {
    let big = fe(u64::MAX);
    let square = big.mul(&big);
    let expected = big.mul(&fe(u64::MAX - 1)).add(&big);
    assert!(square.equals(&expected));
    assert!(!square.equals(&fe(1)));
}
