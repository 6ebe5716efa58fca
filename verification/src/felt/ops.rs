//! Shifts, bitwise operations, integer division and sign-like queries on the
//! canonical representative of a field element.

use super::big::big_div_rem;
use super::bytes::be_value;
use super::{halve, join, pow2_128, prime, sub_borrow, Felt252, PRIME_HIGH, PRIME_LOW};
use vstd::arithmetic::power::pow;
use vstd::prelude::*;

verus! {

/// The integer whose halves are the bitwise OR of the halves of `a` and `b`.
pub open spec fn bitor_value(a: Felt252, b: Felt252) -> nat {
    join(a.high() | b.high(), a.low() | b.low())
}

/// The integer whose halves are the bitwise XOR of the halves of `a` and `b`.
pub open spec fn bitxor_value(a: Felt252, b: Felt252) -> nat {
    join(a.high() ^ b.high(), a.low() ^ b.low())
}

/// The integer whose halves are the bitwise AND of the halves of `a` and `b`.
pub open spec fn bitand_value(a: Felt252, b: Felt252) -> nat {
    join(a.high() & b.high(), a.low() & b.low())
}

/// The integer in `(-prime / 2, prime / 2]` that is congruent to the residue
/// `v`: residues in the upper half of the field count as negative.
pub open spec fn as_int(v: nat) -> int {
    if v > (prime() - 1) / 2 {
        v as int - prime() as int
    } else {
        v as int
    }
}

/// Reduces a 256-bit integer below twice the prime to its residue.
fn reduce_once(hi: u128, lo: u128) -> (r: Felt252)
    requires
        join(hi, lo) < 2 * prime(),
    ensures
        r@ == join(hi, lo) % prime(),
        r@ < prime(),
{
    if hi > PRIME_HIGH || (hi == PRIME_HIGH && lo >= PRIME_LOW) {
        let (lo2, borrow) = sub_borrow(lo, PRIME_LOW, false);
        let (hi2, _) = sub_borrow(hi, PRIME_HIGH, borrow);
        proof {
            let s = join(hi, lo);
            vstd::arithmetic::div_mod::lemma_fundamental_div_mod_converse(
                s as int,
                prime() as int,
                1,
                (s - prime()) as int,
            );
        }
        Felt252 { hi: hi2, lo: lo2 }
    } else {
        proof {
            vstd::arithmetic::div_mod::lemma_small_mod(join(hi, lo), prime());
        }
        Felt252 { hi, lo }
    }
}

impl Felt252 {
    /// Bitwise AND of the canonical representatives.
    pub fn bitand(&self, rhs: &Felt252) -> (r: Felt252)
        ensures
            r@ == bitand_value(*self, *rhs),
            r@ < prime(),
    {
        proof {
            use_type_invariant(self);
        }
        let hi: u128 = self.hi & rhs.hi;
        let lo: u128 = self.lo & rhs.lo;
        proof {
            let (a, b, c, d) = (self.hi, rhs.hi, self.lo, rhs.lo);
            assert(a & b <= a) by (bit_vector);
            assert(c & d <= c) by (bit_vector);
        }
        Felt252 { hi, lo }
    }

    /// Bitwise OR of the canonical representatives, reduced modulo the prime.
    pub fn bitor(&self, rhs: &Felt252) -> (r: Felt252)
        ensures
            r@ == bitor_value(*self, *rhs) % prime(),
            r@ < prime(),
    {
        proof {
            use_type_invariant(self);
            use_type_invariant(rhs);
        }
        let hi: u128 = self.hi | rhs.hi;
        let lo: u128 = self.lo | rhs.lo;
        proof {
            let (a, b) = (self.hi, rhs.hi);
            assert(a < 0x1000_0000_0000_0000_0000_0000_0000_0000u128 && b
                < 0x1000_0000_0000_0000_0000_0000_0000_0000u128 ==> (a | b)
                < 0x1000_0000_0000_0000_0000_0000_0000_0000u128) by (bit_vector);
        }
        reduce_once(hi, lo)
    }

    /// Bitwise XOR of the canonical representatives, reduced modulo the prime.
    pub fn bitxor(&self, rhs: &Felt252) -> (r: Felt252)
        ensures
            r@ == bitxor_value(*self, *rhs) % prime(),
            r@ < prime(),
    {
        proof {
            use_type_invariant(self);
            use_type_invariant(rhs);
        }
        let hi: u128 = self.hi ^ rhs.hi;
        let lo: u128 = self.lo ^ rhs.lo;
        proof {
            let (a, b) = (self.hi, rhs.hi);
            assert(a < 0x1000_0000_0000_0000_0000_0000_0000_0000u128 && b
                < 0x1000_0000_0000_0000_0000_0000_0000_0000u128 ==> (a ^ b)
                < 0x1000_0000_0000_0000_0000_0000_0000_0000u128) by (bit_vector);
        }
        reduce_once(hi, lo)
    }

    /// Left shift: multiplication by `2^shift` modulo the prime.
    pub fn shl(&self, shift: usize) -> (r: Felt252)
        ensures
            r@ == (self@ * pow(2, shift as nat)) % (prime() as int),
            r@ < prime(),
    {
        let factor = Felt252::from_u128(2).pow_words(0, shift as u128);
        let r = self.mul(&factor);
        proof {
            vstd::arithmetic::div_mod::lemma_mul_mod_noop_right(
                self@ as int,
                pow(2, shift as nat),
                prime() as int,
            );
        }
        r
    }

    /// Right shift: integer division of the canonical representative by
    /// `2^shift`.
    pub fn shr(&self, shift: usize) -> (r: Felt252)
        ensures
            r@ == self@ as int / pow(2, shift as nat),
            r@ < prime(),
    {
        proof {
            use_type_invariant(self);
            vstd::arithmetic::power::lemma_pow0(2);
        }
        let mut hi: u128 = self.hi;
        let mut lo: u128 = self.lo;
        let mut i: usize = 0;
        while i < shift && (hi != 0 || lo != 0)
            invariant
                i <= shift,
                join(hi, lo) == self@ as int / pow(2, i as nat),
                join(hi, lo) <= self@,
                self@ < prime(),
            decreases shift - i,
        {
            let halved = halve(hi, lo);
            proof {
                let d = pow(2, i as nat);
                vstd::arithmetic::power::lemma_pow_positive(2, i as nat);
                vstd::arithmetic::div_mod::lemma_div_denominator(self@ as int, d, 2);
                vstd::arithmetic::power::lemma_pow1(2);
                vstd::arithmetic::power::lemma_pow_adds(2, i as nat, 1);
            }
            hi = halved.0;
            lo = halved.1;
            i = i + 1;
        }
        proof {
            if i < shift {
                // the value is already zero and stays zero under further division
                let d = pow(2, i as nat);
                let e = pow(2, shift as nat);
                vstd::arithmetic::power::lemma_pow_positive(2, i as nat);
                vstd::arithmetic::power::lemma_pow_positive(2, shift as nat);
                vstd::arithmetic::power::lemma_pow_increases(2, i as nat, shift as nat);
                vstd::arithmetic::div_mod::lemma_fundamental_div_mod(self@ as int, d);
                vstd::arithmetic::div_mod::lemma_mod_bound(self@ as int, d);
                assert(self@ as int / d == 0);
                assert(d * (self@ as int / d) == 0) by (nonlinear_arith)
                    requires
                        self@ as int / d == 0,
                ;
                assert(self@ < d);
                vstd::arithmetic::div_mod::lemma_basic_div(self@ as int, e);
            }
        }
        Felt252 { hi, lo }
    }

    /// The sign and the magnitude of the element read as an integer in
    /// `(-prime / 2, prime / 2]`.
    pub fn to_signed(&self) -> (r: (bool, Felt252))
        ensures
            r.0 == (as_int(self@) < 0),
            r.1@ == (if as_int(self@) < 0 {
                -as_int(self@)
            } else {
                as_int(self@)
            }),
            r.1@ <= (prime() - 1) / 2,
    {
        proof {
            use_type_invariant(self);
        }
        let half = Felt252 { hi: PRIME_HIGH / 2, lo: 0 };
        assert(half@ == (prime() - 1) / 2);
        if self.gt(&half) {
            (true, self.neg())
        } else {
            (false, *self)
        }
    }

    /// The element congruent to the integer with the given sign and magnitude.
    pub fn from_signed(negative: bool, magnitude: &Felt252) -> (r: Felt252)
        ensures
            r@ == (if negative {
                -(magnitude@ as int)
            } else {
                magnitude@ as int
            }) % (prime() as int),
            r@ < prime(),
    {
        proof {
            use_type_invariant(magnitude);
        }
        if negative {
            let r = magnitude.neg();
            proof {
                let p = prime() as int;
                let m = magnitude@ as int;
                if m == 0 {
                    vstd::arithmetic::div_mod::lemma_small_mod(0, prime());
                } else {
                    vstd::arithmetic::div_mod::lemma_fundamental_div_mod_converse(
                        -m,
                        p,
                        -1,
                        p - m,
                    );
                }
            }
            r
        } else {
            proof {
                vstd::arithmetic::div_mod::lemma_small_mod(magnitude@, prime());
            }
            *magnitude
        }
    }

    /// The upper and the lower 128 bits of the canonical representative.
    pub fn split_words(&self) -> (r: (Felt252, Felt252))
        ensures
            r.0@ == self@ / pow2_128(),
            r.1@ == self@ % pow2_128(),
            r.0@ < prime(),
            r.1@ < prime(),
    {
        proof {
            use_type_invariant(self);
            vstd::arithmetic::div_mod::lemma_fundamental_div_mod_converse(
                self@ as int,
                pow2_128() as int,
                self.hi as int,
                self.lo as int,
            );
        }
        (Felt252 { hi: 0, lo: self.hi }, Felt252 { hi: 0, lo: self.lo })
    }

    /// Whether the canonical representative is even.
    pub fn is_even(&self) -> (r: bool)
        ensures
            r == (self@ % 2 == 0),
    {
        self.lo % 2 == 0
    }

    /// Whether the canonical representative is odd.
    pub fn is_odd(&self) -> (r: bool)
        ensures
            r == (self@ % 2 == 1),
    {
        self.lo % 2 == 1
    }

    /// Integer quotient and remainder of the canonical representatives.
    pub fn div_rem(&self, rhs: &Felt252) -> (r: (Felt252, Felt252))
        requires
            rhs@ != 0,
        ensures
            r.0@ == self@ / rhs@,
            r.1@ == self@ % rhs@,
            r.0@ < prime(),
            r.1@ < prime(),
    {
        proof {
            use_type_invariant(self);
            use_type_invariant(rhs);
        }
        let (q, m) = big_div_rem(self.to_be_bytes().as_slice(), rhs.to_be_bytes().as_slice());
        proof {
            let (a, b) = (self@ as int, rhs@ as int);
            vstd::arithmetic::div_mod::lemma_mod_bound(a, b);
            vstd::arithmetic::div_mod::lemma_div_is_ordered_by_denominator(a, 1, b);
            vstd::arithmetic::div_mod::lemma_div_basics(a);
            vstd::arithmetic::div_mod::lemma_div_pos_is_pos(a, b);
            vstd::arithmetic::div_mod::lemma_small_mod(be_value(q@), prime());
            vstd::arithmetic::div_mod::lemma_small_mod(be_value(m@), prime());
        }
        (Felt252::from_bytes_be(q.as_slice()), Felt252::from_bytes_be(m.as_slice()))
    }

    /// Integer quotient and remainder of the canonical representatives; on
    /// non-negative integers flooring and truncating agree.
    pub fn div_mod_floor(&self, rhs: &Felt252) -> (r: (Felt252, Felt252))
        requires
            rhs@ != 0,
        ensures
            r.0@ == self@ / rhs@,
            r.1@ == self@ % rhs@,
            r.0@ < prime(),
            r.1@ < prime(),
    {
        self.div_rem(rhs)
    }

    /// Integer quotient of the canonical representatives.
    pub fn div_floor(&self, rhs: &Felt252) -> (r: Felt252)
        requires
            rhs@ != 0,
        ensures
            r@ == self@ / rhs@,
            r@ < prime(),
    {
        self.div_rem(rhs).0
    }

    /// Integer remainder of the canonical representatives.
    pub fn mod_floor(&self, rhs: &Felt252) -> (r: Felt252)
        requires
            rhs@ != 0,
        ensures
            r@ == self@ % rhs@,
            r@ < prime(),
    {
        self.div_rem(rhs).1
    }

    /// Remainder of field division, which is exact: always zero.
    pub fn rem(&self, rhs: &Felt252) -> (r: Felt252)
        ensures
            r@ == 0,
    {
        Felt252::zero()
    }

    /// Absolute value; canonical representatives are never negative.
    pub fn abs(&self) -> (r: Felt252)
        ensures
            r == *self,
    {
        *self
    }

    /// Zero for zero, one for everything else.
    pub fn signum(&self) -> (r: Felt252)
        ensures
            r@ == (if self@ == 0 { 0nat } else { 1 }),
    {
        if self.is_zero() {
            Felt252::zero()
        } else {
            Felt252::one()
        }
    }

    /// Whether the value is non-zero.
    pub fn is_positive(&self) -> (r: bool)
        ensures
            r == (self@ != 0),
    {
        !self.is_zero()
    }

    /// Canonical representatives are never negative.
    pub fn is_negative(&self) -> (r: bool)
        ensures
            !r,
    {
        false
    }

    /// The distance between two canonical representatives.
    pub fn abs_sub(&self, rhs: &Felt252) -> (r: Felt252)
        ensures
            r@ == (if self@ > rhs@ { self@ - rhs@ } else { rhs@ - self@ }),
            r@ < prime(),
    {
        proof {
            use_type_invariant(self);
            use_type_invariant(rhs);
        }
        if self.gt(rhs) {
            let r = self.sub(rhs);
            proof {
                vstd::arithmetic::div_mod::lemma_small_mod((self@ - rhs@) as nat, prime());
            }
            r
        } else {
            let r = rhs.sub(self);
            proof {
                vstd::arithmetic::div_mod::lemma_small_mod((rhs@ - self@) as nat, prime());
            }
            r
        }
    }

    /// The larger of two elements by canonical representative.
    pub fn max(&self, rhs: &Felt252) -> (r: Felt252)
        ensures
            r == (if self@ >= rhs@ { *self } else { *rhs }),
    {
        if self.ge(rhs) {
            *self
        } else {
            *rhs
        }
    }

    /// Sum with a machine integer.
    pub fn add_usize(&self, rhs: usize) -> (r: Felt252)
        ensures
            r@ == (self@ + rhs) % (prime() as int),
            r@ < prime(),
    {
        self.add(&Felt252::from_u128(rhs as u128))
    }

    /// Difference with a machine integer.
    pub fn sub_usize(&self, rhs: usize) -> (r: Felt252)
        ensures
            r@ == (self@ - rhs) % (prime() as int),
            r@ < prime(),
    {
        self.sub(&Felt252::from_u128(rhs as u128))
    }
}

} // verus!
