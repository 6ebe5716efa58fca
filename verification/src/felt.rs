//! Field elements modulo the 252-bit prime `2^251 + 17 * 2^192 + 1`.

use vstd::arithmetic::power::pow;
use vstd::prelude::*;

pub mod big;
pub mod bytes;
pub mod convert;
pub mod digits;
pub mod laws;
pub mod operators;
pub mod ops;
pub mod primality;

verus! {

/// Upper 128 bits of the field prime.
pub const PRIME_HIGH: u128 = 0x0800_0000_0000_0011_0000_0000_0000_0000u128;

/// Lower 128 bits of the field prime.
pub const PRIME_LOW: u128 = 1u128;

/// The field prime in hexadecimal notation.
pub const PRIME_STR: &'static str =
    "0x800000000000011000000000000000000000000000000000000000000000001";

/// The field prime as a mathematical integer.
pub open spec fn prime() -> nat {
    0x800000000000011000000000000000000000000000000000000000000000001nat
}

/// `2^128`, the weight of the upper half of a field element.
pub open spec fn pow2_128() -> nat {
    0x1_0000_0000_0000_0000_0000_0000_0000_0000nat
}

/// The integer denoted by an upper and a lower 128-bit half.
pub open spec fn join(hi: u128, lo: u128) -> nat {
    hi as nat * pow2_128() + lo as nat
}

/// Sum of two residues.
pub open spec fn field_add(a: nat, b: nat) -> nat {
    (a + b) % prime()
}

/// Difference of two residues.
pub open spec fn field_sub(a: nat, b: nat) -> nat {
    ((a as int - b as int) % (prime() as int)) as nat
}

/// Product of two residues.
pub open spec fn field_mul(a: nat, b: nat) -> nat {
    (a * b) % prime()
}

/// Additive inverse of a residue.
pub open spec fn field_neg(a: nat) -> nat {
    if a == 0 {
        0
    } else {
        (prime() - a) as nat
    }
}

/// Power of a residue.
pub open spec fn field_pow(a: nat, e: nat) -> nat {
    (pow(a as int, e) % (prime() as int)) as nat
}

/// The error of reading a field element from text.
#[derive(Clone, Copy, Debug, PartialEq, Eq, Structural)]
pub struct ParseFeltError;

/// An integer in `[0, prime())`, stored as two 128-bit halves.
#[derive(Clone, Copy, Debug, PartialEq, Eq, PartialOrd, Ord, Hash, Structural)]
pub struct Felt252 {
    hi: u128,
    lo: u128,
}

impl View for Felt252 {
    type V = nat;

    open spec fn view(&self) -> nat {
        join(self.high(), self.low())
    }
}

impl Felt252 {
    /// Upper 128 bits of the canonical representative.
    pub closed spec fn high(&self) -> u128 {
        self.hi
    }

    /// Lower 128 bits of the canonical representative.
    pub closed spec fn low(&self) -> u128 {
        self.lo
    }

    /// Every field element that exists at run time is canonical.
    #[verifier::type_invariant]
    pub open spec fn canonical(&self) -> bool {
        self@ < prime()
    }

    /// The additive identity.
    pub fn zero() -> (r: Felt252)
        ensures
            r@ == 0,
    {
        Felt252 { hi: 0, lo: 0 }
    }

    /// The multiplicative identity.
    pub fn one() -> (r: Felt252)
        ensures
            r@ == 1,
    {
        Felt252 { hi: 0, lo: 1 }
    }

    /// Sum modulo the prime.
    pub fn add(&self, rhs: &Felt252) -> (r: Felt252)
        ensures
            r@ == field_add(self@, rhs@),
            r@ < prime(),
    {
        proof {
            use_type_invariant(self);
            use_type_invariant(rhs);
        }
        let (lo, carry) = add_carry(self.lo, rhs.lo, false);
        let (hi, _) = add_carry(self.hi, rhs.hi, carry);
        if hi > PRIME_HIGH || (hi == PRIME_HIGH && lo >= PRIME_LOW) {
            let (lo2, borrow) = sub_borrow(lo, PRIME_LOW, false);
            let (hi2, _) = sub_borrow(hi, PRIME_HIGH, borrow);
            proof {
                let s = self@ + rhs@;
                assert(join(hi2, lo2) == s - prime());
                vstd::arithmetic::div_mod::lemma_fundamental_div_mod_converse(
                    s as int,
                    prime() as int,
                    1,
                    (s - prime()) as int,
                );
            }
            Felt252 { hi: hi2, lo: lo2 }
        } else {
            proof {
                vstd::arithmetic::div_mod::lemma_small_mod((self@ + rhs@) as nat, prime());
            }
            Felt252 { hi, lo }
        }
    }

    /// Difference modulo the prime.
    pub fn sub(&self, rhs: &Felt252) -> (r: Felt252)
        ensures
            r@ == field_sub(self@, rhs@),
            r@ < prime(),
    {
        proof {
            use_type_invariant(self);
            use_type_invariant(rhs);
        }
        let (lo, borrow) = sub_borrow(self.lo, rhs.lo, false);
        let (hi, under) = sub_borrow(self.hi, rhs.hi, borrow);
        if under {
            let (lo2, carry) = add_carry(lo, PRIME_LOW, false);
            let (hi2, _) = add_carry(hi, PRIME_HIGH, carry);
            proof {
                let d = self@ as int - rhs@ as int;
                assert(join(hi2, lo2) == d + prime());
                vstd::arithmetic::div_mod::lemma_fundamental_div_mod_converse(
                    d,
                    prime() as int,
                    -1,
                    d + prime(),
                );
            }
            Felt252 { hi: hi2, lo: lo2 }
        } else {
            proof {
                vstd::arithmetic::div_mod::lemma_small_mod(
                    (self@ as int - rhs@ as int) as nat,
                    prime(),
                );
            }
            Felt252 { hi, lo }
        }
    }

    /// Additive inverse modulo the prime.
    pub fn neg(&self) -> (r: Felt252)
        ensures
            r@ == field_neg(self@),
            r@ < prime(),
    {
        proof {
            use_type_invariant(self);
        }
        if self.hi == 0 && self.lo == 0 {
            Felt252 { hi: 0, lo: 0 }
        } else {
            let (lo, borrow) = sub_borrow(PRIME_LOW, self.lo, false);
            let (hi, _) = sub_borrow(PRIME_HIGH, self.hi, borrow);
            Felt252 { hi, lo }
        }
    }

    /// Whether this is the additive identity.
    pub fn is_zero(&self) -> (r: bool)
        ensures
            r == (self@ == 0),
    {
        self.hi == 0 && self.lo == 0
    }

    /// Whether this is the multiplicative identity.
    pub fn is_one(&self) -> (r: bool)
        ensures
            r == (self@ == 1),
    {
        self.hi == 0 && self.lo == 1
    }

    /// The smallest field element, zero.
    pub fn min_value() -> (r: Felt252)
        ensures
            r@ == 0,
    {
        Felt252 { hi: 0, lo: 0 }
    }

    /// The largest field element, the prime minus one.
    pub fn max_value() -> (r: Felt252)
        ensures
            r@ == prime() - 1,
    {
        Felt252 { hi: PRIME_HIGH, lo: 0 }
    }

    /// Unsigned comparison of the canonical representatives: strictly less.
    pub fn lt(&self, rhs: &Felt252) -> (r: bool)
        ensures
            r == (self@ < rhs@),
    {
        self.hi < rhs.hi || (self.hi == rhs.hi && self.lo < rhs.lo)
    }

    /// Unsigned comparison of the canonical representatives: less or equal.
    pub fn le(&self, rhs: &Felt252) -> (r: bool)
        ensures
            r == (self@ <= rhs@),
    {
        self.hi < rhs.hi || (self.hi == rhs.hi && self.lo <= rhs.lo)
    }

    /// Unsigned comparison of the canonical representatives: strictly greater.
    pub fn gt(&self, rhs: &Felt252) -> (r: bool)
        ensures
            r == (self@ > rhs@),
    {
        rhs.lt(self)
    }

    /// Unsigned comparison of the canonical representatives: greater or equal.
    pub fn ge(&self, rhs: &Felt252) -> (r: bool)
        ensures
            r == (self@ >= rhs@),
    {
        rhs.le(self)
    }

    /// The field element with the given halves, which must denote a value
    /// below the prime.
    pub fn from_words(hi: u128, lo: u128) -> (r: Felt252)
        requires
            join(hi, lo) < prime(),
        ensures
            r@ == join(hi, lo),
    {
        Felt252 { hi, lo }
    }

    /// The field element denoted by an unsigned 128-bit integer.
    pub fn from_u128(value: u128) -> (r: Felt252)
        ensures
            r@ == value,
    {
        Felt252 { hi: 0, lo: value }
    }

    /// The field element congruent to a signed 128-bit integer.
    pub fn from_i128(value: i128) -> (r: Felt252)
        ensures
            r@ == (value as int) % (prime() as int),
            r@ < prime(),
    {
        if value >= 0 {
            proof {
                vstd::arithmetic::div_mod::lemma_small_mod(value as nat, prime());
            }
            Felt252 { hi: 0, lo: value as u128 }
        } else {
            let magnitude: u128 = if value == i128::MIN {
                0x8000_0000_0000_0000_0000_0000_0000_0000u128
            } else {
                (-value) as u128
            };
            let (lo, borrow) = sub_borrow(PRIME_LOW, magnitude, false);
            let (hi, _) = sub_borrow(PRIME_HIGH, 0, borrow);
            proof {
                vstd::arithmetic::div_mod::lemma_fundamental_div_mod_converse(
                    value as int,
                    prime() as int,
                    -1,
                    value as int + prime(),
                );
            }
            Felt252 { hi, lo }
        }
    }

    /// The value as an unsigned 128-bit integer, if it fits.
    pub fn to_u128(&self) -> (r: Option<u128>)
        ensures
            r == (if self@ <= u128::MAX { Some(self@ as u128) } else { None }),
    {
        if self.hi == 0 {
            Some(self.lo)
        } else {
            None
        }
    }

    /// The value as an unsigned 64-bit integer, if it fits.
    pub fn to_u64(&self) -> (r: Option<u64>)
        ensures
            r == (if self@ <= u64::MAX { Some(self@ as u64) } else { None }),
    {
        if self.hi == 0 && self.lo <= u64::MAX as u128 {
            Some(self.lo as u64)
        } else {
            None
        }
    }

    /// The value as an unsigned 32-bit integer, if it fits.
    pub fn to_u32(&self) -> (r: Option<u32>)
        ensures
            r == (if self@ <= u32::MAX { Some(self@ as u32) } else { None }),
    {
        if self.hi == 0 && self.lo <= u32::MAX as u128 {
            Some(self.lo as u32)
        } else {
            None
        }
    }

    /// The value as a machine-sized unsigned integer, if it fits.
    pub fn to_usize(&self) -> (r: Option<usize>)
        ensures
            r == (if self@ <= usize::MAX { Some(self@ as usize) } else { None }),
    {
        if self.hi == 0 && self.lo <= usize::MAX as u128 {
            Some(self.lo as usize)
        } else {
            None
        }
    }

    /// The value as a signed 64-bit integer, if it fits.
    pub fn to_i64(&self) -> (r: Option<i64>)
        ensures
            r == (if self@ <= i64::MAX { Some(self@ as i64) } else { None }),
    {
        if self.hi == 0 && self.lo <= i64::MAX as u128 {
            Some(self.lo as i64)
        } else {
            None
        }
    }

    /// Product modulo the prime.
    pub fn mul(&self, rhs: &Felt252) -> (r: Felt252)
        ensures
            r@ == field_mul(self@, rhs@),
            r@ < prime(),
    {
        proof {
            use_type_invariant(self);
            use_type_invariant(rhs);
        }
        let mut acc = Felt252::zero();
        let mut base = *self;
        let mut k_hi: u128 = rhs.hi;
        let mut k_lo: u128 = rhs.lo;
        while k_hi != 0 || k_lo != 0
            invariant
                acc@ < prime(),
                base@ < prime(),
                (acc@ + base@ * join(k_hi, k_lo)) % prime() == (self@ * rhs@) % prime(),
            decreases join(k_hi, k_lo),
        {
            let ghost k = join(k_hi, k_lo);
            let ghost old_acc = acc@;
            let ghost old_base = base@;
            let odd: bool = k_lo % 2 == 1;
            if odd {
                acc = acc.add(&base);
            }
            base = base.add(&base);
            let halved = halve(k_hi, k_lo);
            k_hi = halved.0;
            k_lo = halved.1;
            proof {
                lemma_double_and_add_step(old_acc, old_base, k, odd);
            }
        }
        proof {
            assert(base@ * join(k_hi, k_lo) == 0) by (nonlinear_arith)
                requires
                    join(k_hi, k_lo) == 0,
            ;
            vstd::arithmetic::div_mod::lemma_small_mod(acc@, prime());
        }
        acc
    }

    /// Power modulo the prime, with the exponent given as two 128-bit words.
    pub fn pow_words(&self, exp_hi: u128, exp_lo: u128) -> (r: Felt252)
        ensures
            r@ == field_pow(self@, join(exp_hi, exp_lo)),
            r@ < prime(),
    {
        proof {
            use_type_invariant(self);
        }
        let mut acc = Felt252::one();
        let mut base = *self;
        let mut k_hi: u128 = exp_hi;
        let mut k_lo: u128 = exp_lo;
        proof {
            assert(1 * pow(self@ as int, join(exp_hi, exp_lo)) == pow(
                self@ as int,
                join(exp_hi, exp_lo),
            ));
        }
        while k_hi != 0 || k_lo != 0
            invariant
                acc@ < prime(),
                base@ < prime(),
                (acc@ * pow(base@ as int, join(k_hi, k_lo))) % (prime() as int) == pow(
                    self@ as int,
                    join(exp_hi, exp_lo),
                ) % (prime() as int),
            decreases join(k_hi, k_lo),
        {
            let ghost k = join(k_hi, k_lo);
            let ghost old_acc = acc@;
            let ghost old_base = base@;
            let odd: bool = k_lo % 2 == 1;
            if odd {
                acc = acc.mul(&base);
            }
            base = base.mul(&base);
            let halved = halve(k_hi, k_lo);
            k_hi = halved.0;
            k_lo = halved.1;
            proof {
                lemma_square_and_multiply_step(old_acc, old_base, k, odd);
            }
        }
        proof {
            vstd::arithmetic::power::lemma_pow0(base@ as int);
            assert(acc@ * 1 == acc@);
            vstd::arithmetic::div_mod::lemma_small_mod(acc@, prime());
        }
        acc
    }

    /// Power modulo the prime with a machine-integer exponent.
    pub fn pow(&self, exp: u32) -> (r: Felt252)
        ensures
            r@ == field_pow(self@, exp as nat),
            r@ < prime(),
    {
        self.pow_words(0, exp as u128)
    }

    /// Power modulo the prime with a field element as exponent.
    pub fn pow_felt(&self, exp: &Felt252) -> (r: Felt252)
        ensures
            r@ == field_pow(self@, exp@),
            r@ < prime(),
    {
        self.pow_words(exp.hi, exp.lo)
    }
}

/// Adds two 128-bit words and an incoming carry; returns the low word and the
/// outgoing carry.
pub fn add_carry(a: u128, b: u128, carry: bool) -> (r: (u128, bool))
    ensures
        r.0 as nat + (if r.1 { pow2_128() } else { 0 }) == a as nat + b as nat + (if carry {
            1nat
        } else {
            0
        }),
{
    let s: u128 = a.wrapping_add(b);
    let c1: bool = s < a;
    let inc: u128 = if carry { 1 } else { 0 };
    let t: u128 = s.wrapping_add(inc);
    let c2: bool = t < s;
    (t, c1 || c2)
}

/// Subtracts a 128-bit word and an incoming borrow from another; returns the
/// low word and the outgoing borrow.
pub fn sub_borrow(a: u128, b: u128, borrow: bool) -> (r: (u128, bool))
    ensures
        r.0 as int - (if r.1 { pow2_128() as int } else { 0 }) == a as int - b as int - (if borrow {
            1int
        } else {
            0
        }),
{
    let s: u128 = a.wrapping_sub(b);
    let c1: bool = a < b;
    let dec: u128 = if borrow { 1 } else { 0 };
    let t: u128 = s.wrapping_sub(dec);
    let c2: bool = s < dec;
    (t, c1 || c2)
}

/// Halves a 256-bit integer given as two 128-bit words.
pub fn halve(hi: u128, lo: u128) -> (r: (u128, u128))
    ensures
        join(r.0, r.1) == join(hi, lo) / 2,
        lo % 2 == join(hi, lo) % 2,
{
    let carry: u128 = if hi % 2 == 1 {
        0x8000_0000_0000_0000_0000_0000_0000_0000u128
    } else {
        0
    };
    (hi / 2, lo / 2 + carry)
}

/// One round of binary multiplication keeps `acc + base * k` unchanged modulo
/// the prime: the low bit of `k` moves into `acc`, `base` doubles and `k` halves.
pub proof fn lemma_double_and_add_step(acc: nat, base: nat, k: nat, odd: bool)
    requires
        odd == (k % 2 == 1),
    ensures
        ((if odd { (acc + base) % prime() } else { acc }) + ((base + base) % prime()) * (k / 2))
            % prime() == (acc + base * k) % prime(),
{
    let p = prime() as int;
    let a: int = if odd { (acc + base) as int } else { acc as int };
    let a_red: int = if odd { ((acc + base) % prime()) as int } else { acc as int };
    let b: int = (base + base) as int;
    let h: int = (k / 2) as int;
    assert(a + b * h == acc + base * k) by (nonlinear_arith)
        requires
            a == (if odd { (acc + base) as int } else { acc as int }),
            b == base + base,
            h == k / 2,
            odd == (k % 2 == 1),
    ;
    vstd::arithmetic::div_mod::lemma_mul_mod_noop_left(b, h, p);
    vstd::arithmetic::div_mod::lemma_add_mod_noop(a, b * h, p);
    vstd::arithmetic::div_mod::lemma_add_mod_noop(a, (b % p) * h, p);
    assert(a_red % p == a % p) by {
        if odd {
            vstd::arithmetic::div_mod::lemma_mod_twice(a, p);
        }
    }
    vstd::arithmetic::div_mod::lemma_add_mod_noop(a_red, (b % p) * h, p);
}

/// One round of binary exponentiation keeps `acc * base^k` unchanged modulo the
/// prime: the low bit of `k` moves into `acc`, `base` is squared and `k` halves.
pub proof fn lemma_square_and_multiply_step(acc: nat, base: nat, k: nat, odd: bool)
    requires
        odd == (k % 2 == 1),
    ensures
        ((if odd { (acc * base) % prime() } else { acc }) * pow(
            ((base * base) % prime()) as int,
            k / 2,
        )) % (prime() as int) == (acc * pow(base as int, k)) % (prime() as int),
{
    let p = prime() as int;
    let h: nat = k / 2;
    let bit: nat = if odd { 1 } else { 0 };
    let b = base as int;
    let a: int = if odd { (acc * base) as int } else { acc as int };
    let a_red: int = if odd { ((acc * base) % prime()) as int } else { acc as int };
    let x = pow(((base * base) % prime()) as int, h);
    let y = pow(b * b, h);
    // x and y agree modulo the prime
    vstd::arithmetic::power::lemma_pow_mod_noop(b * b, h, p);
    // y is base^(2h)
    vstd::arithmetic::power::lemma_square_is_pow2(b);
    vstd::arithmetic::power::lemma_pow_multiplies(b, 2, h);
    assert(y == pow(b, 2 * h));
    // base^k splits into base^bit * base^(2h)
    vstd::arithmetic::power::lemma_pow_adds(b, bit, 2 * h);
    assert(bit + 2 * h == k);
    vstd::arithmetic::power::lemma_pow0(b);
    vstd::arithmetic::power::lemma_pow1(b);
    assert(a == acc * pow(b, bit)) by (nonlinear_arith)
        requires
            a == (if odd { (acc * base) as int } else { acc as int }),
            pow(b, bit) == (if odd { b } else { 1 }),
            b == base,
    ;
    assert(a * y == acc * pow(b, k)) by (nonlinear_arith)
        requires
            a == acc * pow(b, bit),
            y == pow(b, 2 * h),
            pow(b, k) == pow(b, bit) * pow(b, 2 * h),
    ;
    vstd::arithmetic::div_mod::lemma_mul_mod_noop_right(a, x, p);
    vstd::arithmetic::div_mod::lemma_mul_mod_noop_right(a, y, p);
    assert((a * x) % p == (a * y) % p);
    assert((a_red * x) % p == (a * x) % p) by {
        if odd {
            vstd::arithmetic::div_mod::lemma_mul_mod_noop_left(a, x, p);
        }
    }
}

} // verus!
