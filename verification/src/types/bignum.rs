//! Integers of any size, for the hints that compute beyond the field.

use crate::felt::big::{big_div_rem, big_extended_gcd, big_sqrt, signed_value};
use crate::felt::bytes::{be_value, lemma_be_value_zeros};
use crate::felt::ops::as_int;
use crate::felt::{prime, Felt252};
use num_bigint::BigUint;
use vstd::prelude::*;

verus! {

/// Calls the addition of `num_bigint::BigUint`. Claimed: the result is the sum.
#[verifier::external_body]
fn big_uadd(a: &[u8], b: &[u8]) -> (r: Vec<u8>)
    ensures
        be_value(r@) == be_value(a@) + be_value(b@),
{
    (BigUint::from_bytes_be(a) + BigUint::from_bytes_be(b)).to_bytes_be()
}

/// Calls the subtraction of `num_bigint::BigUint`, which panics where the
/// result would be negative. Claimed: the result is the difference.
#[verifier::external_body]
fn big_usub(a: &[u8], b: &[u8]) -> (r: Vec<u8>)
    requires
        be_value(a@) >= be_value(b@),
    ensures
        be_value(r@) == be_value(a@) - be_value(b@),
{
    (BigUint::from_bytes_be(a) - BigUint::from_bytes_be(b)).to_bytes_be()
}

/// Calls the multiplication of `num_bigint::BigUint`. Claimed: the result is the
/// product.
#[verifier::external_body]
fn big_umul(a: &[u8], b: &[u8]) -> (r: Vec<u8>)
    ensures
        be_value(r@) == be_value(a@) * be_value(b@),
{
    (BigUint::from_bytes_be(a) * BigUint::from_bytes_be(b)).to_bytes_be()
}

/// Calls the order of `num_bigint::BigUint`. Claimed: the result tells whether
/// the first integer is smaller than the second.
#[verifier::external_body]
fn big_less(a: &[u8], b: &[u8]) -> (r: bool)
    ensures
        r == (be_value(a@) < be_value(b@)),
{
    BigUint::from_bytes_be(a) < BigUint::from_bytes_be(b)
}

/// An integer: its sign and its magnitude in big-endian bytes.
#[derive(Debug, Clone, PartialEq, Eq)]
pub struct BigNum {
    pub negative: bool,
    pub magnitude: Vec<u8>,
}

impl View for BigNum {
    type V = int;

    open spec fn view(&self) -> int {
        signed_value(self.negative, self.magnitude@)
    }
}

/// Whether `q` and `r` are quotient and remainder of the floored division of
/// `v` by `d`: the remainder has the sign of the divisor and is smaller in
/// magnitude.
pub open spec fn floored(v: int, d: int, q: int, r: int) -> bool {
    &&& q * d + r == v
    &&& d > 0 ==> 0 <= r < d
    &&& d < 0 ==> d < r <= 0
}

/// A byte string with a byte that is not zero denotes a positive integer.
pub proof fn lemma_be_value_positive(s: Seq<u8>, i: int)
    requires
        0 <= i < s.len(),
        s[i] != 0,
    ensures
        be_value(s) > 0,
    decreases s.len(),
{
    if i < s.len() - 1 {
        lemma_be_value_positive(s.drop_last(), i);
    }
}

impl BigNum {
    /// The integer with the given sign and magnitude, with the sign of zero
    /// cleared.
    fn make(negative: bool, magnitude: Vec<u8>) -> (r: BigNum)
        ensures
            r@ == signed_value(negative, magnitude@),
            r.magnitude == magnitude,
            r.negative ==> r@ < 0,
    {
        let mut all_zero = true;
        let mut i: usize = 0;
        while i < magnitude.len()
            invariant
                i <= magnitude@.len(),
                all_zero ==> forall|k: int| 0 <= k < i ==> magnitude@[k] == 0,
                !all_zero ==> exists|k: int| 0 <= k < magnitude@.len() && magnitude@[k] != 0,
            decreases magnitude@.len() - i,
        {
            if magnitude[i] != 0 {
                all_zero = false;
            }
            i = i + 1;
        }
        proof {
            if all_zero {
                lemma_be_value_zeros(magnitude@);
            } else {
                let k = choose|k: int| 0 <= k < magnitude@.len() && magnitude@[k] != 0;
                lemma_be_value_positive(magnitude@, k);
            }
        }
        BigNum { negative: negative && !all_zero, magnitude }
    }

    /// Whether the integer is zero.
    pub fn is_zero(&self) -> (r: bool)
        ensures
            r == (self@ == 0),
    {
        let zero: Vec<u8> = Vec::new();
        !big_less(zero.as_slice(), self.magnitude.as_slice())
    }

    /// The integer of a machine integer.
    pub fn from_u128(value: u128) -> (r: BigNum)
        ensures
            r@ == value,
            !r.negative,
    {
        let felt = Felt252::from_u128(value);
        BigNum { negative: false, magnitude: felt.to_bytes_be() }
    }

    /// The integer of a signed machine integer.
    pub fn from_i128(value: i128) -> (r: BigNum)
        ensures
            r@ == value,
    {
        if value >= 0 {
            BigNum::from_u128(value as u128)
        } else {
            let magnitude: u128 = if value == i128::MIN {
                0x8000_0000_0000_0000_0000_0000_0000_0000u128
            } else {
                (-value) as u128
            };
            BigNum { negative: true, magnitude: Felt252::from_u128(magnitude).to_bytes_be() }
        }
    }

    /// The canonical representative of a field element.
    pub fn from_felt(felt: &Felt252) -> (r: BigNum)
        ensures
            r@ == felt@,
            !r.negative,
    {
        BigNum { negative: false, magnitude: felt.to_bytes_be() }
    }

    /// A field element read as a signed integer.
    pub fn from_felt_signed(felt: &Felt252) -> (r: BigNum)
        ensures
            r@ == as_int(felt@),
    {
        let (negative, magnitude) = felt.to_signed();
        BigNum { negative, magnitude: magnitude.to_bytes_be() }
    }

    /// The field element congruent to the integer.
    pub fn to_felt(&self) -> (r: Felt252)
        ensures
            r@ == self@ % (prime() as int),
    {
        Felt252::from_signed_bytes_be(self.negative, self.magnitude.as_slice())
    }

    /// The negated integer.
    pub fn neg(&self) -> (r: BigNum)
        ensures
            r@ == -self@,
    {
        BigNum { negative: !self.negative, magnitude: self.magnitude.clone() }
    }

    /// The sum.
    pub fn add(&self, other: &BigNum) -> (r: BigNum)
        ensures
            r@ == self@ + other@,
    {
        if self.negative == other.negative {
            BigNum::make(
                self.negative,
                big_uadd(self.magnitude.as_slice(), other.magnitude.as_slice()),
            )
        } else if big_less(self.magnitude.as_slice(), other.magnitude.as_slice()) {
            BigNum::make(
                other.negative,
                big_usub(other.magnitude.as_slice(), self.magnitude.as_slice()),
            )
        } else {
            BigNum::make(
                self.negative,
                big_usub(self.magnitude.as_slice(), other.magnitude.as_slice()),
            )
        }
    }

    /// The difference.
    pub fn sub(&self, other: &BigNum) -> (r: BigNum)
        ensures
            r@ == self@ - other@,
    {
        self.add(&other.neg())
    }

    /// The product.
    pub fn mul(&self, other: &BigNum) -> (r: BigNum)
        ensures
            r@ == self@ * other@,
    {
        let magnitude = big_umul(self.magnitude.as_slice(), other.magnitude.as_slice());
        proof {
            let (a, b) = (be_value(self.magnitude@) as int, be_value(other.magnitude@) as int);
            assert((-a) * b == -(a * b) && a * (-b) == -(a * b) && (-a) * (-b) == a * b)
                by (nonlinear_arith);
        }
        BigNum::make(self.negative != other.negative, magnitude)
    }

    /// Quotient and remainder of the floored division by `other`, which must not
    /// be zero.
    pub fn div_mod_floor(&self, other: &BigNum) -> (r: (BigNum, BigNum))
        requires
            other@ != 0,
        ensures
            floored(self@, other@, r.0@, r.1@),
    {
        let (qm, rm) = big_div_rem(self.magnitude.as_slice(), other.magnitude.as_slice());
        let one = BigNum::from_u128(1);
        let q_abs = BigNum { negative: false, magnitude: qm };
        let r_abs = BigNum { negative: false, magnitude: rm };
        let d_abs = BigNum { negative: false, magnitude: other.magnitude.clone() };
        proof {
            let (v, d) = (be_value(self.magnitude@) as int, be_value(other.magnitude@) as int);
            vstd::arithmetic::div_mod::lemma_fundamental_div_mod(v, d);
            vstd::arithmetic::div_mod::lemma_mod_bound(v, d);
            assert(q_abs@ * d + r_abs@ == v) by (nonlinear_arith)
                requires
                    v == d * (v / d) + v % d,
                    q_abs@ == v / d,
                    r_abs@ == v % d,
            ;
        }
        if self.negative == other.negative {
            // the quotient is not negative, the remainder has the sign of both
            proof {
                let (q, d, r, v) = (
                    q_abs@,
                    be_value(other.magnitude@) as int,
                    r_abs@,
                    be_value(self.magnitude@) as int,
                );
                assert(q * (-d) + (-r) == -v) by (nonlinear_arith)
                    requires
                        q * d + r == v,
                ;
            }
            (q_abs, BigNum::make(other.negative, r_abs.magnitude))
        } else if r_abs.is_zero() {
            proof {
                let (q, d, v) = (
                    q_abs@,
                    be_value(other.magnitude@) as int,
                    be_value(self.magnitude@) as int,
                );
                assert((-q) * d == -v && (-q) * (-d) == v) by (nonlinear_arith)
                    requires
                        q * d == v,
                ;
            }
            (q_abs.neg(), r_abs)
        } else {
            // the quotient rounds away from zero, the remainder is what is
            // left to the divisor
            let q = q_abs.add(&one).neg();
            let r_mag = d_abs.sub(&r_abs);
            proof {
                let (q0, d, r, v) = (
                    q_abs@,
                    be_value(other.magnitude@) as int,
                    r_abs@,
                    be_value(self.magnitude@) as int,
                );
                assert((-(q0 + 1)) * d + (d - r) == -v && (-(q0 + 1)) * (-d) + (-(d - r)) == v)
                    by (nonlinear_arith)
                    requires
                        q0 * d + r == v,
                ;
            }
            if other.negative {
                (q, r_mag.neg())
            } else {
                (q, r_mag)
            }
        }
    }

    /// The remainder of the floored division by `other`, which must not be
    /// zero.
    pub fn mod_floor(&self, other: &BigNum) -> (r: BigNum)
        requires
            other@ != 0,
        ensures
            exists|q: int| #[trigger] floored(self@, other@, q, r@),
    {
        let (q, r) = self.div_mod_floor(other);
        assert(floored(self@, other@, q@, r@));
        r
    }

    /// Whether the integer is smaller than `other`, both not negative.
    pub fn lt_magnitude(&self, other: &BigNum) -> (r: bool)
        requires
            self@ >= 0,
            other@ >= 0,
        ensures
            r == (self@ < other@),
    {
        big_less(self.magnitude.as_slice(), other.magnitude.as_slice())
    }

    /// The integer square root, rounded down, of an integer that is not
    /// negative.
    pub fn sqrt(&self) -> (r: BigNum)
        requires
            self@ >= 0,
        ensures
            r@ >= 0,
            r@ * r@ <= self@ < (r@ + 1) * (r@ + 1),
    {
        BigNum { negative: false, magnitude: big_sqrt(self.magnitude.as_slice()) }
    }

    /// The inverse of the integer modulo `modulus`, where there is one: both
    /// must not be negative, and the modulus not zero.
    pub fn inverse_mod(&self, modulus: &BigNum) -> (r: Option<BigNum>)
        requires
            self@ >= 0,
            modulus@ > 0,
        ensures
            r is Some <==> has_inverse_mod(self@, modulus@),
            r matches Some(inv) ==> (inv@ * self@ - 1) % modulus@ == 0,
    {
        let bezout = big_extended_gcd(self.magnitude.as_slice(), modulus.magnitude.as_slice());
        let gcd = BigNum { negative: false, magnitude: bezout.gcd };
        if !gcd.same(&BigNum::from_u128(1)) {
            proof {
                if has_inverse_mod(self@, modulus@) {
                    lemma_common_divisor_is_one(self@, modulus@, gcd@);
                }
            }
            return None;
        }
        let x = BigNum { negative: bezout.x_negative, magnitude: bezout.x };
        proof {
            let y = signed_value(bezout.y_negative, bezout.y@);
            assert(x@ * self@ - 1 == modulus@ * (-y)) by (nonlinear_arith)
                requires
                    1 == x@ * self@ + y * modulus@,
            ;
            vstd::arithmetic::div_mod::lemma_mod_multiples_basic(-y, modulus@);
            assert(modulus@ * (-y) == (-y) * modulus@) by (nonlinear_arith);
        }
        assert(has_inverse_mod(self@, modulus@)) by {
            assert((x@ * self@ - 1) % modulus@ == 0);
        }
        Some(x)
    }

    /// A copy of the integer.
    pub fn duplicate(&self) -> (r: BigNum)
        ensures
            r@ == self@,
            r.negative == self.negative,
            r.magnitude@ == self.magnitude@,
    {
        BigNum { negative: self.negative, magnitude: self.magnitude.clone() }
    }

    /// Whether the two integers are the same.
    pub fn same(&self, other: &BigNum) -> (r: bool)
        ensures
            r == (self@ == other@),
    {
        self.sub(other).is_zero()
    }
}

/// Whether `a` has an inverse modulo `m`: an integer whose product with `a`
/// is one more than a multiple of `m`.
pub open spec fn has_inverse_mod(a: int, m: int) -> bool {
    exists|k: int| #[trigger] ((k * a - 1) % m) == 0
}

/// A positive common divisor of `m` and of an integer that has an inverse
/// modulo `m` is one.
pub proof fn lemma_common_divisor_is_one(a: int, m: int, g: int)
    requires
        m > 0,
        g > 0,
        a % g == 0,
        m % g == 0,
        has_inverse_mod(a, m),
    ensures
        g == 1,
{
    let k = choose|k: int| #[trigger] ((k * a - 1) % m) == 0;
    let q = (k * a - 1) / m;
    vstd::arithmetic::div_mod::lemma_fundamental_div_mod(k * a - 1, m);
    assert(k * a - 1 == m * q);
    let a1 = a / g;
    let m1 = m / g;
    vstd::arithmetic::div_mod::lemma_fundamental_div_mod(a, g);
    vstd::arithmetic::div_mod::lemma_fundamental_div_mod(m, g);
    assert(a == g * a1);
    assert(m == g * m1);
    assert(g * (k * a1 - m1 * q) == 1) by (nonlinear_arith)
        requires
            k * a - 1 == m * q,
            a == g * a1,
            m == g * m1,
    ;
    let t = k * a1 - m1 * q;
    assert(g == 1) by (nonlinear_arith)
        requires
            g * t == 1,
            g > 0,
    ;
}

} // verus!
