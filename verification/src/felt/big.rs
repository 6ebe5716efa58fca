//! Operations on field elements that are carried out by arbitrary-precision
//! integers: inversion, integer square roots, powers under a foreign modulus,
//! and conversion to and from digit strings.

use super::bytes::{be_value, prime_be_bytes};
use super::laws::law_quotient_unique;
use super::{field_mul, prime, Felt252, ParseFeltError};
use crate::types::errors::math_errors::MathError;
use num_bigint::{BigInt, BigUint, Sign};
use num_integer::Integer;
use vstd::arithmetic::power::pow;
use vstd::prelude::*;
use vstd::string::StringSliceAdditionalSpecFns;

verus! {

/// Greatest common divisor of two non-negative integers together with its
/// Bézout coefficients, each integer as big-endian bytes and a sign.
pub struct Bezout {
    pub gcd: Vec<u8>,
    pub x_negative: bool,
    pub x: Vec<u8>,
    pub y_negative: bool,
    pub y: Vec<u8>,
}

/// The integer with the given sign and big-endian magnitude.
pub open spec fn signed_value(negative: bool, magnitude: Seq<u8>) -> int {
    if negative {
        -(be_value(magnitude) as int)
    } else {
        be_value(magnitude) as int
    }
}

/// The integer that `num_bigint::BigUint::parse_bytes` reads from `buf` in the
/// given radix; `None` where it rejects the text.
pub uninterp spec fn parsed_unsigned(buf: Seq<u8>, radix: u32) -> Option<nat>;

/// The integer that `num_bigint::BigInt::parse_bytes` reads from `buf` in the
/// given radix; `None` where it rejects the text.
pub uninterp spec fn parsed_signed(buf: Seq<u8>, radix: u32) -> Option<int>;

/// The character of a digit below thirty-six: the decimal digits, then the
/// lower-case letters.
pub open spec fn digit_char(digit: nat) -> char {
    "0123456789abcdefghijklmnopqrstuvwxyz"@[digit as int]
}

/// The text of `value` in a radix from 2 to 36: its digits, the most
/// significant first and without leading zeros; zero is the one digit `0`.
pub open spec fn radix_digits(value: nat, radix: u32) -> Seq<char>
    decreases value,
    via radix_digits_decreases
{
    if radix < 2 || value < radix {
        seq![digit_char(value)]
    } else {
        radix_digits(value / (radix as nat), radix).push(digit_char(value % (radix as nat)))
    }
}

#[via_fn]
proof fn radix_digits_decreases(value: nat, radix: u32) {
    if !(radix < 2 || value < radix) {
        assert(value / (radix as nat) < value) by (nonlinear_arith)
            requires
                radix >= 2,
                value >= radix,
        ;
    }
}

/// Calls `num_integer::Integer::extended_gcd` on two non-negative
/// `num_bigint::BigInt` values. Claimed: the result is a common divisor of both,
/// positive unless both are zero, and `gcd == x * a + y * b`.
#[verifier::external_body]
pub(crate) fn big_extended_gcd(a: &[u8], b: &[u8]) -> (r: Bezout)
    ensures
        be_value(r.gcd@) as int == signed_value(r.x_negative, r.x@) * be_value(a@) + signed_value(
            r.y_negative,
            r.y@,
        ) * be_value(b@),
        be_value(a@) != 0 || be_value(b@) != 0 ==> be_value(r.gcd@) > 0,
        be_value(r.gcd@) > 0 ==> be_value(a@) % be_value(r.gcd@) == 0 && be_value(b@) % be_value(
            r.gcd@,
        ) == 0,
{
    let e = BigInt::from_bytes_be(Sign::Plus, a).extended_gcd(&BigInt::from_bytes_be(Sign::Plus, b));
    let (x_sign, x) = e.x.to_bytes_be();
    let (y_sign, y) = e.y.to_bytes_be();
    Bezout {
        gcd: e.gcd.to_bytes_be().1,
        x_negative: match x_sign { Sign::Minus => true, Sign::NoSign => false, Sign::Plus => false },
        x,
        y_negative: match y_sign { Sign::Minus => true, Sign::NoSign => false, Sign::Plus => false },
        y,
    }
}

/// Calls `num_integer::Integer::div_rem` on two `num_bigint::BigUint` values,
/// which panics on a zero divisor. Claimed: the results are the integer
/// quotient and remainder.
#[verifier::external_body]
pub(crate) fn big_div_rem(a: &[u8], b: &[u8]) -> (r: (Vec<u8>, Vec<u8>))
    requires
        be_value(b@) != 0,
    ensures
        be_value(r.0@) == be_value(a@) / be_value(b@),
        be_value(r.1@) == be_value(a@) % be_value(b@),
{
    let (q, r) = BigUint::from_bytes_be(a).div_rem(&BigUint::from_bytes_be(b));
    (q.to_bytes_be(), r.to_bytes_be())
}

/// Calls `num_bigint::BigUint::sqrt`. Claimed: the result is the integer square
/// root rounded down.
#[verifier::external_body]
pub(crate) fn big_sqrt(a: &[u8]) -> (r: Vec<u8>)
    ensures
        be_value(r@) * be_value(r@) <= be_value(a@),
        be_value(a@) < (be_value(r@) + 1) * (be_value(r@) + 1),
{
    BigUint::from_bytes_be(a).sqrt().to_bytes_be()
}

/// Calls `num_bigint::BigUint::modpow`, which panics on a zero modulus. Claimed:
/// the result is `base^exponent` reduced modulo `modulus`.
#[verifier::external_body]
fn big_modpow(base: &[u8], exponent: &[u8], modulus: &[u8]) -> (r: Vec<u8>)
    requires
        be_value(modulus@) != 0,
    ensures
        be_value(r@) as int == pow(be_value(base@) as int, be_value(exponent@)) % (be_value(
            modulus@,
        ) as int),
{
    BigUint::from_bytes_be(base).modpow(
        &BigUint::from_bytes_be(exponent),
        &BigUint::from_bytes_be(modulus),
    ).to_bytes_be()
}

/// Calls `num_bigint::BigUint::parse_bytes`, which panics on a radix outside
/// `2..=36`. The result is named, not described.
#[verifier::external_body]
fn big_parse_unsigned(buf: &[u8], radix: u32) -> (r: Option<Vec<u8>>)
    requires
        2 <= radix <= 36,
    ensures
        match r {
            Some(digits) => parsed_unsigned(buf@, radix) == Some(be_value(digits@)),
            None => parsed_unsigned(buf@, radix).is_none(),
        },
{
    BigUint::parse_bytes(buf, radix).map(|n| n.to_bytes_be())
}

/// Calls `num_bigint::BigInt::parse_bytes`, which panics on a radix outside
/// `2..=36`. The result is named, not described.
#[verifier::external_body]
fn big_parse_signed(buf: &[u8], radix: u32) -> (r: Option<(bool, Vec<u8>)>)
    requires
        2 <= radix <= 36,
    ensures
        match r {
            Some((negative, digits)) => parsed_signed(buf@, radix) == Some(
                signed_value(negative, digits@),
            ),
            None => parsed_signed(buf@, radix).is_none(),
        },
{
    let (sign, digits) = BigInt::parse_bytes(buf, radix)?.to_bytes_be();
    Some((match sign { Sign::Minus => true, Sign::NoSign => false, Sign::Plus => false }, digits))
}

/// Calls `num_bigint::BigUint::to_str_radix`, which panics on a radix outside
/// `2..=36`. Claimed: the result is the text of the integer in that radix, in
/// lower case and without leading zeros, and `0` for zero.
#[verifier::external_body]
fn big_to_str_radix(value: &[u8], radix: u32) -> (r: String)
    requires
        2 <= radix <= 36,
    ensures
        r@ == radix_digits(be_value(value@), radix),
{
    BigUint::from_bytes_be(value).to_str_radix(radix)
}

/// The residue that `Felt252::parse_bytes` reads from `buf`: the unsigned
/// reading where there is one, else the signed one, reduced modulo the prime.
pub open spec fn parsed_residue(buf: Seq<u8>, radix: u32) -> Option<nat> {
    match parsed_unsigned(buf, radix) {
        Some(v) => Some(v % prime()),
        None => match parsed_signed(buf, radix) {
            Some(v) => Some((v % (prime() as int)) as nat),
            None => None,
        },
    }
}

/// Whether `v` has a multiplicative inverse modulo the prime.
pub open spec fn invertible(v: nat) -> bool {
    exists|k: nat| (#[trigger] (k * v)) % prime() == 1
}

/// The quotient of `x` by `y` in the field: the residue that gives `x` when
/// multiplied by `y`. Where `y` has an inverse there is exactly one.
pub open spec fn field_div(x: nat, y: nat) -> nat {
    choose|q: nat| q < prime() && field_mul(q, y) == x
}

/// Zero has no multiplicative inverse.
pub proof fn lemma_zero_not_invertible()
    ensures
        !invertible(0),
{
    assert forall|k: nat| (#[trigger] (k * 0)) % prime() != 1 by {
        assert(k * 0 == 0);
    }
}

/// Where a positive `g` divides both `v` and the prime and `v` is invertible,
/// `g` is one.
pub proof fn lemma_common_divisor_of_invertible(v: nat, g: nat)
    requires
        g > 0,
        v % g == 0,
        prime() % g == 0,
        invertible(v),
    ensures
        g == 1,
{
    let k = choose|k: nat| (#[trigger] (k * v)) % prime() == 1;
    let p = prime() as int;
    let kv = (k * v) as int;
    let m = kv / p;
    vstd::arithmetic::div_mod::lemma_fundamental_div_mod(kv, p);
    assert(kv == p * m + 1);
    // g divides k * v and m * p, hence their difference, which is one
    vstd::arithmetic::div_mod::lemma_mul_mod_noop_right(k as int, v as int, g as int);
    assert((k * (v % g)) == 0) by (nonlinear_arith)
        requires
            v % g == 0,
    ;
    assert(kv % (g as int) == 0);
    vstd::arithmetic::div_mod::lemma_mul_mod_noop_left(p, m, g as int);
    assert(((p % (g as int)) * m) == 0) by (nonlinear_arith)
        requires
            p % (g as int) == 0,
    ;
    assert((p * m) % (g as int) == 0);
    vstd::arithmetic::div_mod::lemma_add_mod_noop(p * m, 1, g as int);
    assert((1int % (g as int)) % (g as int) == 0);
    if g > 1 {
        vstd::arithmetic::div_mod::lemma_small_mod(1, g);
    }
}

/// Multiplying a quotient back: where `inv * v` is one modulo the prime,
/// `((x * inv) % p) * v` is `x` modulo the prime.
pub proof fn lemma_quotient_times_divisor(x: nat, v: nat, inv: nat)
    requires
        x < prime(),
        (inv * v) % prime() == 1,
    ensures
        (((x * inv) % prime()) * v) % prime() == x,
{
    let p = prime() as int;
    vstd::arithmetic::div_mod::lemma_mul_mod_noop_left((x * inv) as int, v as int, p);
    assert((x * inv) * v == x * (inv * v)) by (nonlinear_arith);
    vstd::arithmetic::div_mod::lemma_mul_mod_noop_right(x as int, (inv * v) as int, p);
    assert(x * 1 == x);
    vstd::arithmetic::div_mod::lemma_small_mod(x, prime());
}

impl Felt252 {
    /// The field element congruent to the integer with the given sign and
    /// big-endian magnitude.
    pub fn from_signed_bytes_be(negative: bool, magnitude: &[u8]) -> (r: Felt252)
        ensures
            r@ == signed_value(negative, magnitude@) % (prime() as int),
            r@ < prime(),
    {
        let m = Felt252::from_bytes_be(magnitude);
        if negative {
            let r = m.neg();
            proof {
                let p = prime() as int;
                let v = be_value(magnitude@) as int;
                vstd::arithmetic::div_mod::lemma_fundamental_div_mod(v, p);
                let q = v / p;
                if m@ == 0 {
                    assert(-v == p * (-q) + 0) by (nonlinear_arith)
                        requires
                            v == p * q + 0,
                    ;
                    vstd::arithmetic::div_mod::lemma_fundamental_div_mod_converse(-v, p, -q, 0);
                } else {
                    assert(-v == p * (-q - 1) + (p - m@)) by (nonlinear_arith)
                        requires
                            v == p * q + m@,
                    ;
                    vstd::arithmetic::div_mod::lemma_fundamental_div_mod_converse(
                        -v,
                        p,
                        -q - 1,
                        p - m@,
                    );
                }
            }
            r
        } else {
            m
        }
    }

    /// The multiplicative inverse: every element but zero has one.
    pub fn inverse(&self) -> (r: Option<Felt252>)
        ensures
            r is Some <==> self@ != 0,
            r is Some <==> invertible(self@),
            r matches Some(inv) ==> field_mul(inv@, self@) == 1 && inv@ < prime(),
    {
        proof {
            use_type_invariant(self);
            crate::felt::primality::law_invertible_but_zero(self@);
        }
        if self.is_zero() {
            proof {
                lemma_zero_not_invertible();
            }
            return None;
        }
        let value = self.to_be_bytes();
        let modulus = prime_be_bytes();
        let bezout = big_extended_gcd(value.as_slice(), modulus.as_slice());
        let inv = Felt252::from_signed_bytes_be(bezout.x_negative, bezout.x.as_slice());
        let check = inv.mul(self);
        if check.is_one() {
            proof {
                assert((inv@ * self@) % prime() == 1);
            }
            Some(inv)
        } else {
            proof {
                let p = prime() as int;
                let g = be_value(bezout.gcd@);
                let x = signed_value(bezout.x_negative, bezout.x@);
                let y = signed_value(bezout.y_negative, bezout.y@);
                if invertible(self@) {
                    lemma_common_divisor_of_invertible(self@, g);
                    // x * v + y * p == 1, so x * v is one modulo p
                    vstd::arithmetic::div_mod::lemma_mod_multiples_vanish(y, x * self@, p);
                    assert(p * y + x * self@ == 1) by (nonlinear_arith)
                        requires
                            1 == x * self@ + y * p,
                    ;
                    vstd::arithmetic::div_mod::lemma_small_mod(1, prime());
                    vstd::arithmetic::div_mod::lemma_mul_mod_noop_left(x, self@ as int, p);
                    assert(false);
                }
            }
            None
        }
    }

    /// Quotient in the field: the element that gives `self` when multiplied by
    /// `rhs`. Fails where `rhs` is zero, and there only.
    pub fn div(&self, rhs: &Felt252) -> (r: Result<Felt252, MathError>)
        ensures
            r is Ok <==> rhs@ != 0,
            r is Ok <==> invertible(rhs@),
            r matches Ok(q) ==> field_mul(q@, rhs@) == self@ && q@ < prime() && q@ == field_div(
                self@,
                rhs@,
            ),
            r matches Err(e) ==> e == MathError::DividedByZero,
    {
        proof {
            use_type_invariant(self);
            use_type_invariant(rhs);
        }
        match rhs.inverse() {
            Some(inv) => {
                let q = self.mul(&inv);
                proof {
                    lemma_quotient_times_divisor(self@, rhs@, inv@);
                    let witness = q@;
                    assert(witness < prime() && field_mul(witness, rhs@) == self@);
                    law_quotient_unique(self@, rhs@, q@, field_div(self@, rhs@));
                }
                Ok(q)
            },
            None => Err(MathError::DividedByZero),
        }
    }

    /// Integer square root of the canonical representative, rounded down. A
    /// perfect square gives its exact root; no residue test is made.
    pub fn sqrt(&self) -> (r: Felt252)
        ensures
            r@ * r@ <= self@,
            self@ < (r@ + 1) * (r@ + 1),
            r@ < prime(),
    {
        proof {
            use_type_invariant(self);
        }
        let value = self.to_be_bytes();
        let root = big_sqrt(value.as_slice());
        let r = Felt252::from_bytes_be(root.as_slice());
        proof {
            let v = be_value(root@);
            assert(v < prime()) by (nonlinear_arith)
                requires
                    v * v <= self@,
                    self@ < prime(),
            ;
            vstd::arithmetic::div_mod::lemma_small_mod(v, prime());
        }
        r
    }

    /// `self^exponent` reduced modulo `modulus`, all three as integers.
    pub fn modpow(&self, exponent: &Felt252, modulus: &Felt252) -> (r: Felt252)
        requires
            modulus@ != 0,
        ensures
            r@ == pow(self@ as int, exponent@) % (modulus@ as int),
            r@ < prime(),
    {
        proof {
            use_type_invariant(modulus);
        }
        let out = big_modpow(
            self.to_be_bytes().as_slice(),
            exponent.to_be_bytes().as_slice(),
            modulus.to_be_bytes().as_slice(),
        );
        let r = Felt252::from_bytes_be(out.as_slice());
        proof {
            vstd::arithmetic::div_mod::lemma_mod_bound(
                pow(self@ as int, exponent@),
                modulus@ as int,
            );
            vstd::arithmetic::div_mod::lemma_small_mod(be_value(out@), prime());
        }
        r
    }

    /// Reads an integer written in the given radix and reduces it modulo the
    /// prime; a minus sign is accepted.
    pub fn parse_bytes(buf: &[u8], radix: u32) -> (r: Option<Felt252>)
        requires
            2 <= radix <= 36,
        ensures
            match r {
                Some(f) => parsed_residue(buf@, radix) == Some(f@) && f@ < prime(),
                None => parsed_residue(buf@, radix).is_none(),
            },
    {
        match big_parse_unsigned(buf, radix) {
            Some(digits) => Some(Felt252::from_bytes_be(digits.as_slice())),
            None => match big_parse_signed(buf, radix) {
                Some((negative, digits)) => Some(
                    Felt252::from_signed_bytes_be(negative, digits.as_slice()),
                ),
                None => None,
            },
        }
    }

    /// Reads a non-negative integer written in the given radix and reduces it
    /// modulo the prime.
    pub fn from_str_radix(string: &str, radix: u32) -> (r: Result<Felt252, ParseFeltError>)
        requires
            2 <= radix <= 36,
        ensures
            match r {
                Ok(f) => parsed_unsigned(string.spec_bytes(), radix) matches Some(v) && f@ == v
                    % prime(),
                Err(_) => parsed_unsigned(string.spec_bytes(), radix).is_none(),
            },
    {
        match big_parse_unsigned(string.as_bytes(), radix) {
            Some(digits) => {
                let f = Felt252::from_bytes_be(digits.as_slice());
                Ok(f)
            },
            None => Err(ParseFeltError),
        }
    }

    /// The canonical representative written in the given radix.
    pub fn to_str_radix(&self, radix: u32) -> (r: String)
        requires
            2 <= radix <= 36,
        ensures
            r@ == radix_digits(self@, radix),
    {
        big_to_str_radix(self.to_be_bytes().as_slice(), radix)
    }

    /// The canonical representative in decimal.
    pub fn to_string(&self) -> (r: String)
        ensures
            r@ == radix_digits(self@, 10),
    {
        self.to_str_radix(10)
    }
}

} // verus!
