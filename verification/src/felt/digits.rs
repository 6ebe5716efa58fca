//! The canonical representative as digits of sixty-four bits, and the sum of
//! a list of elements.

use super::{field_add, pow2_128, prime, Felt252};
use vstd::prelude::*;

verus! {

/// Two to the power sixty-four.
pub open spec fn pow2_64() -> nat {
    0x1_0000_0000_0000_0000
}

/// The number that digits of sixty-four bits write, least significant first.
pub open spec fn u64_digits_value(digits: Seq<u64>) -> nat
    decreases digits.len(),
{
    if digits.len() == 0 {
        0
    } else {
        digits[0] as nat + pow2_64() * u64_digits_value(digits.skip(1))
    }
}

/// The two digits of a word of 128 bits, the lower one first.
pub fn word_digits(word: u128) -> (r: (u64, u64))
    ensures
        word == r.0 + pow2_64() * r.1,
{
    let low = (word & 0xffff_ffff_ffff_ffff) as u64;
    let high = (word >> 64) as u64;
    assert(word == (word & 0xffff_ffff_ffff_ffff) + 0x1_0000_0000_0000_0000 * (word >> 64)
        && (word & 0xffff_ffff_ffff_ffff) < 0x1_0000_0000_0000_0000 && (word >> 64)
        < 0x1_0000_0000_0000_0000) by (bit_vector);
    (low, high)
}

/// What up to four digits write.
pub proof fn lemma_four_digits(digits: Seq<u64>)
    requires
        digits.len() <= 4,
    ensures
        digits.len() == 0 ==> u64_digits_value(digits) == 0,
        digits.len() == 1 ==> u64_digits_value(digits) == digits[0],
        digits.len() == 2 ==> u64_digits_value(digits) == digits[0] + pow2_64() * digits[1],
        digits.len() == 3 ==> u64_digits_value(digits) == digits[0] + pow2_64() * (digits[1]
            + pow2_64() * digits[2]),
        digits.len() == 4 ==> u64_digits_value(digits) == digits[0] + pow2_64() * (digits[1]
            + pow2_64() * (digits[2] + pow2_64() * digits[3])),
    decreases digits.len(),
{
    if digits.len() > 0 {
        lemma_four_digits(digits.skip(1));
        assert(u64_digits_value(digits) == digits[0] as nat + pow2_64() * u64_digits_value(
            digits.skip(1),
        ));
        if digits.len() > 1 {
            assert(digits.skip(1)[0] == digits[1]);
        }
        if digits.len() > 2 {
            assert(digits.skip(1)[1] == digits[2]);
        }
        if digits.len() > 3 {
            assert(digits.skip(1)[2] == digits[3]);
        }
    }
}

impl Felt252 {
    /// The canonical representative in digits of sixty-four bits, the least
    /// significant first and the last one not zero; zero has no digits.
    pub fn iter_u64_digits(&self) -> (r: Vec<u64>)
        ensures
            u64_digits_value(r@) == self@,
            r@.len() <= 4,
            r@.len() > 0 ==> r@.last() != 0,
    {
        let (d0, d1) = word_digits(self.lo);
        let (d2, d3) = word_digits(self.hi);
        let mut r: Vec<u64> = Vec::new();
        if d3 != 0 {
            r.push(d0);
            r.push(d1);
            r.push(d2);
            r.push(d3);
        } else if d2 != 0 {
            r.push(d0);
            r.push(d1);
            r.push(d2);
        } else if d1 != 0 {
            r.push(d0);
            r.push(d1);
        } else if d0 != 0 {
            r.push(d0);
        }
        proof {
            let b = pow2_64() as int;
            let whole = d0 + b * (d1 + b * (d2 + b * d3));
            assert(self@ == self.hi * pow2_128() + self.lo);
            assert(pow2_128() == b * b);
            assert(whole == (d2 + b * d3) * (b * b) + (d0 + b * d1)) by (nonlinear_arith)
                requires
                    whole == d0 + b * (d1 + b * (d2 + b * d3)),
            ;
            assert(self@ == whole);
            lemma_four_digits(r@);
            if d3 == 0 {
                assert(b * d3 == 0);
                if d2 == 0 {
                    assert(b * (d2 + b * d3) == 0);
                    if d1 == 0 {
                        assert(b * (d1 + b * (d2 + b * d3)) == 0);
                    }
                }
            }
        }
        r
    }
}

/// The sum of the elements in the field; zero for none.
pub open spec fn sum_of(values: Seq<Felt252>) -> nat
    decreases values.len(),
{
    if values.len() == 0 {
        0
    } else {
        field_add(sum_of(values.drop_last()), values.last()@)
    }
}

impl Felt252 {
    /// The sum of the elements in the field; zero for none.
    pub fn sum(values: &[Felt252]) -> (r: Felt252)
        ensures
            r@ == sum_of(values@),
            r@ < prime(),
    {
        let mut total = Felt252::zero();
        let mut i: usize = 0;
        while i < values.len()
            invariant
                i <= values@.len(),
                total@ == sum_of(values@.take(i as int)),
                total@ < prime(),
            decreases values@.len() - i,
        {
            proof {
                assert(values@.take(i + 1).drop_last() =~= values@.take(i as int));
            }
            total = total.add(&values[i]);
            i = i + 1;
        }
        proof {
            assert(values@.take(values@.len() as int) =~= values@);
        }
        total
    }
}

} // verus!
