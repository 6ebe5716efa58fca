use cairo_vm::felt::{Felt252, PRIME_STR};
use cairo_vm::types::errors::math_errors::MathError;
use num_bigint::BigUint;
use num_traits::{One, Zero};

const PRIME_DECIMAL: &str =
    "3618502788666131213697322783095070105623107215331596699973092056135872020481";

fn to_biguint(felt: &Felt252) -> BigUint {
    BigUint::from_bytes_be(&felt.to_bytes_be())
}

fn felt_str(text: &str) -> Felt252 {
    Felt252::parse_bytes(text.as_bytes(), 10).expect("a decimal number")
}

#[test]
fn sum_zeros_in_range() {
    let x = Felt252::new(0);
    let y = Felt252::new(0);
    let z = Felt252::new(0);
    assert_eq!(x + y, z)
}

#[test]
fn mul_zeros_in_range() {
    let x = Felt252::new(0);
    let y = Felt252::new(0);
    let z = Felt252::new(0);
    assert_eq!(x * y, z)
}

#[test]
fn bit_and_zeros_in_range() {
    let x = Felt252::new(0);
    let y = Felt252::new(0);
    let z = Felt252::new(0);
    assert_eq!(&x & &y, z)
}

#[test]
fn bit_or_zeros_in_range() {
    let x = Felt252::new(0);
    let y = Felt252::new(0);
    let z = Felt252::new(0);
    assert_eq!(&x | &y, z)
}

#[test]
fn bit_xor_zeros_in_range() {
    let x = Felt252::new(0);
    let y = Felt252::new(0);
    let z = Felt252::new(0);
    assert_eq!(&x ^ &y, z)
}

#[test]
fn upper_bound() {
    let prime = &BigUint::parse_bytes(PRIME_STR[2..].as_bytes(), 16).unwrap();
    let unit = BigUint::one();
    let felt_max_value = to_biguint(&Felt252::max_value());
    assert_eq!(prime - unit, felt_max_value)
}

#[test]
fn lower_bound() {
    let zero = BigUint::zero();
    let felt_min_value = to_biguint(&Felt252::min_value());
    assert_eq!(zero, felt_min_value)
}

#[test]
fn zero_value() {
    let zero = BigUint::zero();
    let felt_zero = to_biguint(&Felt252::zero());
    assert_eq!(zero, felt_zero)
}

#[test]
fn is_zero() {
    let felt_zero = Felt252::zero();
    let felt_non_zero = Felt252::new(3);
    assert!(felt_zero.is_zero());
    assert!(!felt_non_zero.is_zero())
}

#[test]
fn one_value() {
    let one = BigUint::one();
    let felt_one = to_biguint(&Felt252::one());
    assert_eq!(one, felt_one)
}

#[test]
fn is_one() {
    let felt_one = Felt252::one();
    let felt_non_one = Felt252::new(8);
    assert!(felt_one.is_one());
    assert!(!felt_non_one.is_one())
}

#[test]
fn signum_of_zero_is_zero() {
    let zero = Felt252::zero();
    assert_eq!(&zero.signum(), &zero)
}

#[test]
fn div_is_mul_inv_small() {
    let x = Felt252::from_u128(12345);
    let y = Felt252::from_u128(67);
    let q = x.div(&y).unwrap();
    assert_eq!(q.mul(&y), x);
}

#[test]
fn to_string_decimal() {
    let x = Felt252::from_i128(-1);
    assert_eq!(
        x.to_string(),
        "3618502788666131213697322783095070105623107215331596699973092056135872020480"
    );
    assert_eq!(Felt252::parse_bytes(b"-1", 10), Some(x));
    assert_eq!(Felt252::from_bytes_be(&x.to_be_bytes()), x);
}

#[test]
fn prime_text_is_the_prime() {
    let prime = BigUint::parse_bytes(PRIME_STR[2..].as_bytes(), 16).unwrap();
    assert_eq!(prime.to_string(), PRIME_DECIMAL);
    assert_eq!(felt_str(PRIME_DECIMAL), Felt252::zero());
}

#[test]
fn wide_bytes_are_reduced() {
    let x = Felt252::from_bytes_be(&[0xff_u8; 40]);
    assert_eq!(
        x.to_string(),
        "1857620379163392758526508178746383968515666070517098158902756351"
    );
    let prime = BigUint::parse_bytes(PRIME_DECIMAL.as_bytes(), 10).unwrap();
    assert!(to_biguint(&x) < prime);
}

#[test]
fn arithmetic_results_are_reduced() {
    let max = Felt252::max_value();
    assert_eq!(max + Felt252::one(), Felt252::zero());
    assert_eq!(max + max, Felt252::new(-2));
    assert_eq!(max * max, Felt252::one());
    assert_eq!(Felt252::zero() - Felt252::one(), max);
    assert_eq!(-Felt252::one(), max);
    assert_eq!(Felt252::new(12345) * Felt252::new(67), Felt252::new(827115));
}

#[test]
fn zero_and_one_are_neutral() {
    for x in [Felt252::zero(), Felt252::new(12345), Felt252::max_value()] {
        assert_eq!(x + Felt252::zero(), x);
        assert_eq!(Felt252::zero() + x, x);
        assert_eq!(x * Felt252::one(), x);
        assert_eq!(Felt252::one() * x, x);
    }
}

#[test]
fn division_undoes_multiplication() {
    let x = Felt252::new(7);
    let y = Felt252::new(3);
    let q = x.div(&y).unwrap();
    assert_eq!(
        q.to_string(),
        "1206167596222043737899107594365023368541035738443865566657697352045290673496"
    );
    assert_eq!(q * y, x);
    assert_eq!(x / y, q);
    assert_eq!(
        Felt252::new(5).inverse().unwrap().to_string(),
        "2894802230932904970957858226476056084498485772265277359978473644908697616385"
    );
}

#[test]
fn division_by_zero_fails() {
    assert_eq!(Felt252::new(7).div(&Felt252::zero()), Err(MathError::DividedByZero));
    assert_eq!(Felt252::zero().inverse(), None);
}

#[test]
fn negation_is_an_involution() {
    for x in [Felt252::zero(), Felt252::new(1), Felt252::new(98765), Felt252::max_value()] {
        assert_eq!(-(-x), x);
        assert_eq!(x + (-x), Felt252::zero());
    }
    assert_eq!(-Felt252::zero(), Felt252::zero());
}

#[test]
fn subtraction_undoes_addition() {
    let x = Felt252::new(5);
    let y = Felt252::max_value();
    assert_eq!((x + y) - y, x);
    assert_eq!((x - y) + y, x);
    assert_eq!(x - y, Felt252::new(6));
}

#[test]
fn bytes_round_trip() {
    for x in [Felt252::zero(), Felt252::new(258), Felt252::max_value()] {
        assert_eq!(Felt252::from_bytes_be(&x.to_be_bytes()), x);
        assert_eq!(Felt252::from_bytes_be(&x.to_bytes_be()), x);
    }
    let bytes = Felt252::new(258).to_be_bytes();
    assert_eq!(bytes[31], 2);
    assert_eq!(bytes[30], 1);
    assert!(bytes[..30].iter().all(|b| *b == 0));
    let le = Felt252::new(258).to_le_bytes();
    assert_eq!(le[0], 2);
    assert_eq!(le[1], 1);
    assert!(le[2..].iter().all(|b| *b == 0));
    assert_eq!(Felt252::max_value().to_be_bytes()[0], 0x08);
    assert_eq!(Felt252::new(258).to_bytes_be(), vec![1_u8, 2]);
    assert_eq!(Felt252::new(258).to_signed_bytes_le(), vec![2_u8, 1]);
    assert_eq!(Felt252::zero().to_signed_bytes_le(), vec![0_u8]);
}

#[test]
fn bit_lengths() {
    assert_eq!(Felt252::zero().bits(), 0);
    assert_eq!(Felt252::one().bits(), 1);
    assert_eq!(Felt252::new(255).bits(), 8);
    assert_eq!(Felt252::new(256).bits(), 9);
    assert_eq!(Felt252::max_value().bits(), 252);
}

#[test]
fn powers() {
    assert_eq!(Felt252::new(2).pow(10), Felt252::new(1024));
    assert_eq!(Felt252::new(7).pow(0), Felt252::one());
    assert_eq!(Felt252::new(3).pow_felt(&Felt252::max_value()), Felt252::one());
    assert_eq!(
        Felt252::new(2).pow(251).to_string(),
        "3618502788666131106986593281521497120414687020801267626233049500247285301248"
    );
}

#[test]
fn modular_power_with_other_modulus() {
    let r = Felt252::new(2).modpow(&Felt252::new(10), &Felt252::new(1000));
    assert_eq!(r, Felt252::new(24));
    let r = Felt252::new(3).modpow(&Felt252::new(4), &Felt252::new(7));
    assert_eq!(r, Felt252::new(4));
}

#[test]
fn integer_square_root() {
    assert_eq!(Felt252::new(0).sqrt(), Felt252::new(0));
    assert_eq!(Felt252::new(16).sqrt(), Felt252::new(4));
    assert_eq!(Felt252::new(17).sqrt(), Felt252::new(4));
    assert_eq!(Felt252::new(24).sqrt(), Felt252::new(4));
    assert_eq!(Felt252::new(25).sqrt(), Felt252::new(5));
}

#[test]
fn texts_in_a_radix() {
    assert_eq!(Felt252::new(255).to_str_radix(16), "ff");
    assert_eq!(Felt252::new(255).to_str_radix(2), "11111111");
    assert_eq!(Felt252::new(0).to_str_radix(10), "0");
    assert_eq!(Felt252::from_str_radix("ff", 16), Ok(Felt252::new(255)));
    assert!(Felt252::from_str_radix("xyz", 16).is_err());
    assert_eq!(Felt252::parse_bytes(b"zz", 10), None);
    assert_eq!(Felt252::parse_bytes(b"-5", 10), Some(Felt252::max_value() - Felt252::new(4)));
    assert_eq!(
        Felt252::max_value().to_str_radix(16),
        "800000000000011000000000000000000000000000000000000000000000000"
    );
}

#[test]
fn signed_bytes() {
    assert_eq!(Felt252::from_signed_bytes_be(false, &[1, 2]), Felt252::new(258));
    assert_eq!(Felt252::from_signed_bytes_be(true, &[1, 2]), Felt252::new(-258));
    assert_eq!(Felt252::from_signed_bytes_be(true, &[]), Felt252::zero());
}

#[test]
fn bitwise_operations() {
    let x = Felt252::new(-5);
    assert_eq!(&x & &Felt252::new(0xffff), Felt252::new(65532));
    assert_eq!(&x | &Felt252::new(1), Felt252::new(-4));
    assert_eq!(&x ^ &Felt252::new(0xff), Felt252::new(-254));
    assert_eq!(&Felt252::new(12) & &Felt252::new(10), Felt252::new(8));
    assert_eq!(&Felt252::new(12) | &Felt252::new(10), Felt252::new(14));
    assert_eq!(&Felt252::new(12) ^ &Felt252::new(10), Felt252::new(6));
}

#[test]
fn shifts() {
    assert_eq!(Felt252::new(1) << 10_u32, Felt252::new(1024));
    assert_eq!(Felt252::new(1024) >> 3_u32, Felt252::new(128));
    assert_eq!(Felt252::new(1) << 251_u32, Felt252::new(2).pow(251));
    // 2^252 is the prime and 2^251 - 17 * 2^192 - 1 more
    assert_eq!(
        Felt252::new(1) << 252_usize,
        Felt252::new(2).pow(251) - Felt252::new(17) * Felt252::new(2).pow(192) - Felt252::one()
    );
    assert_eq!(
        (Felt252::max_value() >> 3_u32).to_string(),
        "452312848583266401712165347886883763202888401916449587496636507016984002560"
    );
    assert_eq!(Felt252::new(5) >> 300_u32, Felt252::zero());
}

#[test]
fn integer_division() {
    let (q, r) = Felt252::new(17).div_rem(&Felt252::new(5));
    assert_eq!((q, r), (Felt252::new(3), Felt252::new(2)));
    let (q, r) = Felt252::new(17).div_mod_floor(&Felt252::new(5));
    assert_eq!((q, r), (Felt252::new(3), Felt252::new(2)));
    assert_eq!(Felt252::new(17).div_floor(&Felt252::new(5)), Felt252::new(3));
    assert_eq!(Felt252::new(17).mod_floor(&Felt252::new(5)), Felt252::new(2));
    assert_eq!(Felt252::new(17) % Felt252::new(5), Felt252::zero());
}

#[test]
fn comparisons_and_signs() {
    assert!(Felt252::new(3) < Felt252::new(5));
    assert!(Felt252::new(-1) > Felt252::new(5));
    assert_eq!(Felt252::max(&Felt252::new(3), &Felt252::new(5)), Felt252::new(5));
    assert_eq!(Felt252::new(3).signum(), Felt252::one());
    assert!(Felt252::new(3).is_positive());
    assert!(!Felt252::zero().is_positive());
    assert!(!Felt252::new(-3).is_negative());
    assert_eq!(Felt252::new(-3).abs(), Felt252::new(-3));
    assert_eq!(Felt252::new(5).abs_sub(&Felt252::new(3)), Felt252::new(2));
    assert_eq!(Felt252::new(3).abs_sub(&Felt252::new(5)), Felt252::new(2));
    assert!(Felt252::new(4).is_even());
    assert!(Felt252::new(5).is_odd());
}

#[test]
fn conversions_to_machine_integers() {
    assert_eq!(Felt252::new(5).to_u64(), Some(5));
    assert_eq!(Felt252::new(u64::MAX).to_u64(), Some(u64::MAX));
    assert_eq!((Felt252::new(u64::MAX) + Felt252::one()).to_u64(), None);
    assert_eq!(Felt252::new(u128::MAX).to_u128(), Some(u128::MAX));
    assert_eq!(Felt252::new(-1).to_u128(), None);
    assert_eq!(Felt252::new(u32::MAX).to_u32(), Some(u32::MAX));
    assert_eq!(Felt252::new(1_u64 << 32).to_u32(), None);
    assert_eq!(Felt252::new(77_usize).to_usize(), Some(77));
    assert_eq!(Felt252::new(i64::MAX).to_i64(), Some(i64::MAX));
    assert_eq!(Felt252::new(-1).to_i64(), None);
    assert_eq!(Felt252::new(-1_i8), Felt252::max_value());
    assert_eq!(Felt252::new(i128::MIN) + Felt252::new(i128::MAX), Felt252::new(-1));
}

#[test]
fn signed_reading() {
    assert_eq!(Felt252::new(5).to_signed(), (false, Felt252::new(5)));
    assert_eq!(Felt252::new(-5).to_signed(), (true, Felt252::new(5)));
    assert_eq!(Felt252::from_signed(true, &Felt252::new(5)), Felt252::new(-5));
    assert_eq!(Felt252::from_signed(false, &Felt252::new(5)), Felt252::new(5));
}

#[test]
fn digits_of_sixty_four_bits() {
    assert_eq!(Felt252::zero().iter_u64_digits(), Vec::<u64>::new());
    assert_eq!(Felt252::new(5).iter_u64_digits(), vec![5_u64]);
    assert_eq!(Felt252::new(u64::MAX).iter_u64_digits(), vec![u64::MAX]);
    assert_eq!(Felt252::new(u128::MAX).iter_u64_digits(), vec![u64::MAX, u64::MAX]);
    assert_eq!((Felt252::new(1) << 64_u32).iter_u64_digits(), vec![0_u64, 1]);
    assert_eq!((Felt252::new(1) << 128_u32).iter_u64_digits(), vec![0_u64, 0, 1]);
    assert_eq!(
        Felt252::max_value().iter_u64_digits(),
        vec![0_u64, 0, 0, 0x0800_0000_0000_0011]
    );
    for x in [Felt252::new(12345), Felt252::new(-12345), Felt252::new(u128::MAX)] {
        assert_eq!(x.iter_u64_digits(), to_biguint(&x).iter_u64_digits().collect::<Vec<u64>>());
    }
}

#[test]
fn sums_of_lists() {
    assert_eq!(Felt252::sum(&[]), Felt252::zero());
    assert_eq!(Felt252::sum(&[Felt252::new(5)]), Felt252::new(5));
    assert_eq!(
        Felt252::sum(&[Felt252::new(1), Felt252::new(2), Felt252::new(3)]),
        Felt252::new(6)
    );
    assert_eq!(
        Felt252::sum(&[Felt252::max_value(), Felt252::new(2), Felt252::max_value()]),
        Felt252::zero()
    );
}

#[test]
fn every_divisor_but_zero_divides() {
    let x = Felt252::new(123456789);
    let mut y = Felt252::new(1);
    let step = Felt252::parse_bytes(b"1208925819614629174706189", 10).unwrap();
    for _ in 0..50 {
        let q = x.div(&y).unwrap();
        assert_eq!(q.mul(&y), x);
        assert_eq!(y.inverse().unwrap().mul(&y), Felt252::new(1));
        y = y.mul(&step).add(&Felt252::new(3));
    }
    assert_eq!(x.div(&Felt252::new(0)), Err(MathError::DividedByZero));
    assert_eq!(Felt252::new(0).inverse(), None);
    let minus_one = Felt252::new(-1);
    assert_eq!(x.div(&minus_one).unwrap(), Felt252::new(0).sub(&x));
}
