use cairo_vm::felt::Felt252;
use cairo_vm::types::bignum::BigNum;

fn big(value: i128) -> BigNum {
    BigNum::from_i128(value)
}

fn is(value: &BigNum, expected: i128) -> bool {
    value.same(&big(expected))
}

#[test]
fn sums_differences_and_products() {
    assert!(is(&big(5).add(&big(7)), 12));
    assert!(is(&big(5).add(&big(-7)), -2));
    assert!(is(&big(-5).add(&big(-7)), -12));
    assert!(is(&big(5).sub(&big(7)), -2));
    assert!(is(&big(7).sub(&big(5)), 2));
    assert!(is(&big(-7).sub(&big(-7)), 0));
    assert!(is(&big(6).mul(&big(7)), 42));
    assert!(is(&big(-6).mul(&big(7)), -42));
    assert!(is(&big(-6).mul(&big(-7)), 42));
    assert!(is(&big(0).mul(&big(-7)), 0));
    assert!(is(&big(9).neg(), -9));
    assert!(is(&big(0).neg(), 0));
    assert!(big(0).is_zero());
    assert!(!big(-1).is_zero());
}

#[test]
fn products_beyond_machine_words() {
    let a = BigNum::from_u128(u128::MAX);
    let square = a.mul(&a);
    // (2^128 - 1)^2 = 2^256 - 2^129 + 1, which is 2^256 - 2^129 + 1 - 32 * P in the field
    let expected = (Felt252::new(1) << 128_u32) - Felt252::new(1);
    assert_eq!(square.to_felt(), expected * expected);
    let (q, r) = square.div_mod_floor(&a);
    assert!(q.same(&a));
    assert!(r.is_zero());
    assert!(square.sqrt().same(&a));
    assert!(square.sub(&big(1)).sqrt().same(&a.sub(&big(1))));
}

#[test]
fn floored_division() {
    let cases: [(i128, i128, i128, i128); 6] = [
        (17, 5, 3, 2),
        (-17, 5, -4, 3),
        (17, -5, -4, -3),
        (-17, -5, 3, -2),
        (15, 5, 3, 0),
        (0, 7, 0, 0),
    ];
    for (a, b, q, r) in cases {
        let (quotient, remainder) = big(a).div_mod_floor(&big(b));
        assert!(is(&quotient, q), "{} / {}", a, b);
        assert!(is(&remainder, r), "{} % {}", a, b);
        assert!(is(&big(a).mod_floor(&big(b)), r), "{} mod {}", a, b);
    }
}

#[test]
fn integer_square_roots() {
    for (n, root) in [(0_i128, 0_i128), (1, 1), (3, 1), (4, 2), (24, 4), (25, 5), (1 << 100, 1 << 50)] {
        assert!(is(&big(n).sqrt(), root), "sqrt {}", n);
    }
}

#[test]
fn comparison_of_magnitudes() {
    assert!(big(3).lt_magnitude(&big(5)));
    assert!(!big(5).lt_magnitude(&big(3)));
    assert!(!big(5).lt_magnitude(&big(5)));
    assert!(big(0).lt_magnitude(&BigNum::from_u128(u128::MAX)));
}

#[test]
fn inverses_modulo_a_number() {
    let inverse = big(3).inverse_mod(&big(7)).unwrap();
    assert!(is(&inverse.mul(&big(3)).mod_floor(&big(7)), 1));
    let inverse = big(10).inverse_mod(&big(17)).unwrap();
    assert!(is(&inverse.mul(&big(10)).mod_floor(&big(17)), 1));
    assert!(big(4).inverse_mod(&big(8)).is_none());
    assert!(big(0).inverse_mod(&big(8)).is_none());
    assert!(big(6).inverse_mod(&big(9)).is_none());
    assert!(big(1).inverse_mod(&big(9)).is_some());
    // modulo one every integer is its own inverse
    assert!(big(0).inverse_mod(&big(1)).is_some());
}

#[test]
fn field_elements_as_integers() {
    assert!(is(&BigNum::from_felt(&Felt252::new(5)), 5));
    assert!(is(&BigNum::from_felt_signed(&Felt252::new(-5)), -5));
    assert!(is(&BigNum::from_felt_signed(&Felt252::new(5)), 5));
    assert_eq!(big(-1).to_felt(), Felt252::max_value());
    assert_eq!(big(12345).to_felt(), Felt252::new(12345));
    assert_eq!(BigNum::from_felt(&Felt252::max_value()).add(&big(1)).to_felt(), Felt252::zero());
    let copy = big(-77).duplicate();
    assert!(is(&copy, -77));
}
