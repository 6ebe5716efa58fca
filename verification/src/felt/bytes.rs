//! Byte representations of field elements.

use super::{halve, join, pow2_128, prime, Felt252, PRIME_HIGH, PRIME_LOW};
use vstd::prelude::*;

verus! {

/// The integer that a byte string denotes when read with the most significant
/// byte first.
pub open spec fn be_value(s: Seq<u8>) -> nat
    decreases s.len(),
{
    if s.len() == 0 {
        0
    } else {
        be_value(s.drop_last()) * 256 + s.last() as nat
    }
}

/// The integer that a byte string denotes when read with the least significant
/// byte first.
pub open spec fn le_value(s: Seq<u8>) -> nat {
    be_value(s.reverse())
}

/// `256^n`, the weight of the byte at distance `n` from the end.
pub open spec fn pow256(n: nat) -> nat
    decreases n,
{
    if n == 0 {
        1
    } else {
        256 * pow256((n - 1) as nat)
    }
}

/// The successive quotients of `v` by 256: `quotient(v, j) == v / 256^j`.
pub open spec fn quotient(v: nat, j: nat) -> nat
    decreases j,
{
    if j == 0 {
        v
    } else {
        quotient(v, (j - 1) as nat) / 256
    }
}

/// The number of binary digits of `v`: zero for zero, else one more than the
/// position of the highest set bit.
pub open spec fn bit_length(v: nat) -> nat
    decreases v,
{
    if v == 0 {
        0
    } else {
        1 + bit_length(v / 2)
    }
}

/// A string whose byte at distance `j` from the end is the `j`-th base-256 digit
/// of `v` denotes `v / 256^(len - i)` on its first `i` bytes.
pub proof fn lemma_digits_value(s: Seq<u8>, v: nat, i: nat)
    requires
        i <= s.len(),
        quotient(v, s.len()) == 0,
        forall|j: nat| j < s.len() ==> s[s.len() - 1 - j] as nat == #[trigger] quotient(v, j) % 256,
    ensures
        be_value(s.take(i as int)) == quotient(v, (s.len() - i) as nat),
    decreases i,
{
    if i == 0 {
        assert(s.take(0).len() == 0);
    } else {
        lemma_digits_value(s, v, (i - 1) as nat);
        let t = s.take(i as int);
        assert(t.drop_last() =~= s.take(i - 1));
        assert(t.last() == s[i - 1]);
        let j: nat = (s.len() - i) as nat;
        assert(s[s.len() - 1 - j] as nat == quotient(v, j) % 256);
        assert(quotient(v, j + 1) == quotient(v, j) / 256);
    }
}

/// A 128-bit word vanishes after sixteen divisions by 256, and `256^16 == 2^128`.
pub proof fn lemma_word_weight(v: nat)
    requires
        v < pow2_128(),
    ensures
        quotient(v, 16) == 0,
        pow256(16) == pow2_128(),
{
    reveal_with_fuel(quotient, 17);
    reveal_with_fuel(pow256, 17);
}

/// The value of a concatenation: the left part shifted by the length of the
/// right part, plus the right part.
pub proof fn lemma_be_value_concat(a: Seq<u8>, b: Seq<u8>)
    ensures
        be_value(a + b) == be_value(a) * pow256(b.len()) + be_value(b),
    decreases b.len(),
{
    if b.len() == 0 {
        assert(a + b =~= a);
        assert(be_value(a) * 1 == be_value(a));
    } else {
        lemma_be_value_concat(a, b.drop_last());
        assert((a + b).drop_last() =~= a + b.drop_last());
        assert((a + b).last() == b.last());
        let x = be_value(a);
        let w = pow256((b.len() - 1) as nat);
        let y = be_value(b.drop_last());
        assert(pow256(b.len()) == 256 * w);
        assert(be_value(a + b) == (x * w + y) * 256 + b.last() as nat);
        assert(be_value(b) == y * 256 + b.last() as nat);
        assert((x * w + y) * 256 == x * (256 * w) + y * 256) by (nonlinear_arith);
    }
}

/// A string of zero bytes denotes zero.
pub proof fn lemma_be_value_zeros(s: Seq<u8>)
    requires
        forall|i: int| 0 <= i < s.len() ==> s[i] == 0,
    ensures
        be_value(s) == 0,
    decreases s.len(),
{
    if s.len() > 0 {
        lemma_be_value_zeros(s.drop_last());
    }
}

/// A value below `256^n` has at most `8 * n` binary digits.
pub proof fn lemma_bit_length_bound(v: nat, n: nat)
    requires
        v < pow256(n),
    ensures
        bit_length(v) <= 8 * n,
    decreases n,
{
    if n == 0 {
    } else {
        lemma_bit_length_bound(v / 256, (n - 1) as nat);
        reveal_with_fuel(bit_length, 9);
        assert(v / 2 / 2 / 2 / 2 / 2 / 2 / 2 / 2 == v / 256);
    }
}

/// A string of `n` bytes denotes a value below `256^n`.
pub proof fn lemma_be_value_bound(s: Seq<u8>)
    ensures
        be_value(s) < pow256(s.len()),
    decreases s.len(),
{
    if s.len() > 0 {
        lemma_be_value_bound(s.drop_last());
    }
}

/// Writes the sixteen big-endian bytes of `word` into `out[start..start + 16]`.
fn put_word_be(out: &mut [u8; 32], start: usize, word: u128)
    requires
        start + 16 <= 32,
    ensures
        forall|i: int| 0 <= i < 32 && !(start <= i < start + 16) ==> final(out)@[i] == old(out)@[i],
        forall|j: nat|
            j < 16 ==> final(out)@[start + 15 - j] as nat == #[trigger] quotient(word as nat, j)
                % 256,
{
    let mut rest: u128 = word;
    let mut j: usize = 0;
    while j < 16
        invariant
            j <= 16,
            start + 16 <= 32,
            rest as nat == quotient(word as nat, j as nat),
            forall|i: int| 0 <= i < 32 && !(start <= i < start + 16) ==> out@[i] == old(out)@[i],
            forall|k: nat| k < j ==> out@[start + 15 - k] as nat == #[trigger] quotient(
                word as nat,
                k,
            ) % 256,
        decreases 16 - j,
    {
        out[start + 15 - j] = (rest % 256) as u8;
        rest = rest / 256;
        j = j + 1;
    }
}

/// The 256-bit integer with the given halves as 32 bytes, most significant first.
pub fn words_to_be_bytes(hi: u128, lo: u128) -> (r: [u8; 32])
    ensures
        be_value(r@) == join(hi, lo),
{
    let mut out = [0u8; 32];
    put_word_be(&mut out, 16, lo);
    put_word_be(&mut out, 0, hi);
    proof {
        let upper = out@.take(16);
        let lower = out@.skip(16);
        assert(out@ =~= upper + lower);
        lemma_word_weight(hi as nat);
        lemma_word_weight(lo as nat);
        assert forall|j: nat| j < 16 implies upper[16 - 1 - j] as nat == #[trigger] quotient(
            hi as nat,
            j,
        ) % 256 by {
            assert(upper[16 - 1 - j] == out@[0 + 15 - j]);
        }
        assert forall|j: nat| j < 16 implies lower[16 - 1 - j] as nat == #[trigger] quotient(
            lo as nat,
            j,
        ) % 256 by {
            assert(lower[16 - 1 - j] == out@[16 + 15 - j]);
        }
        lemma_digits_value(upper, hi as nat, 16);
        lemma_digits_value(lower, lo as nat, 16);
        assert(upper.take(16) =~= upper);
        assert(lower.take(16) =~= lower);
        lemma_be_value_concat(upper, lower);
    }
    out
}

/// The field prime as 32 bytes, most significant first.
pub fn prime_be_bytes() -> (r: [u8; 32])
    ensures
        be_value(r@) == prime(),
{
    words_to_be_bytes(PRIME_HIGH, PRIME_LOW)
}

impl Felt252 {
    /// The canonical representative as 32 bytes, most significant first.
    pub fn to_be_bytes(&self) -> (r: [u8; 32])
        ensures
            be_value(r@) == self@,
    {
        words_to_be_bytes(self.hi, self.lo)
    }

    /// The canonical representative as 32 bytes, least significant first.
    pub fn to_le_bytes(&self) -> (r: [u8; 32])
        ensures
            le_value(r@) == self@,
    {
        let be = self.to_be_bytes();
        let mut out = [0u8; 32];
        let mut i: usize = 0;
        while i < 32
            invariant
                i <= 32,
                forall|k: int| 0 <= k < i ==> out@[k] == be@[31 - k],
            decreases 32 - i,
        {
            out[i] = be[31 - i];
            i = i + 1;
        }
        proof {
            assert(out@.reverse() =~= be@);
        }
        out
    }

    /// The field element congruent to the integer that `bytes` denotes, most
    /// significant byte first. Any length is accepted.
    pub fn from_bytes_be(bytes: &[u8]) -> (r: Felt252)
        ensures
            r@ == be_value(bytes@) % prime(),
            r@ < prime(),
    {
        let shift = Felt252::from_u128(256);
        let mut acc = Felt252::zero();
        let mut i: usize = 0;
        proof {
            assert(bytes@.take(0).len() == 0);
            vstd::arithmetic::div_mod::lemma_small_mod(0, prime());
        }
        while i < bytes.len()
            invariant
                i <= bytes.len(),
                shift@ == 256,
                acc@ == be_value(bytes@.take(i as int)) % prime(),
                acc@ < prime(),
            decreases bytes.len() - i,
        {
            let digit = Felt252::from_u128(bytes[i] as u128);
            let ghost before = be_value(bytes@.take(i as int));
            acc = acc.mul(&shift).add(&digit);
            proof {
                let p = prime() as int;
                let t = bytes@.take(i + 1);
                assert(t.drop_last() =~= bytes@.take(i as int));
                assert(t.last() == bytes@[i as int]);
                vstd::arithmetic::div_mod::lemma_mul_mod_noop_left(before as int, 256, p);
                vstd::arithmetic::div_mod::lemma_add_mod_noop(
                    before as int * 256,
                    digit@ as int,
                    p,
                );
                vstd::arithmetic::div_mod::lemma_add_mod_noop(
                    ((before % prime()) * 256) as int,
                    digit@ as int,
                    p,
                );
            }
            i = i + 1;
        }
        proof {
            assert(bytes@.take(bytes@.len() as int) =~= bytes@);
        }
        acc
    }

    /// The canonical representative as big-endian bytes without leading zeros;
    /// zero is the single byte 0.
    pub fn to_bytes_be(&self) -> (r: Vec<u8>)
        ensures
            be_value(r@) == self@,
            1 <= r@.len() <= 32,
            r@.len() == 1 || r@[0] != 0,
    {
        let full = self.to_be_bytes();
        let mut start: usize = 0;
        while start < 31 && full[start] == 0
            invariant
                start <= 31,
                forall|k: int| 0 <= k < start ==> full@[k] == 0,
            decreases 31 - start,
        {
            start = start + 1;
        }
        let mut out: Vec<u8> = Vec::new();
        let mut i: usize = start;
        while i < 32
            invariant
                start <= i <= 32,
                out@ =~= full@.subrange(start as int, i as int),
            decreases 32 - i,
        {
            out.push(full[i]);
            i = i + 1;
        }
        proof {
            let zeros = full@.take(start as int);
            let rest = full@.skip(start as int);
            assert(full@ =~= zeros + rest);
            assert(out@ =~= rest);
            lemma_be_value_zeros(zeros);
            lemma_be_value_concat(zeros, rest);
            assert(0 * pow256(rest.len()) == 0);
        }
        out
    }

    /// The canonical representative as little-endian bytes without trailing
    /// zeros; zero is the single byte 0.
    pub fn to_signed_bytes_le(&self) -> (r: Vec<u8>)
        ensures
            le_value(r@) == self@,
            1 <= r@.len() <= 32,
            r@.len() == 1 || r@.last() != 0,
    {
        let be = self.to_bytes_be();
        let n = be.len();
        let mut out: Vec<u8> = Vec::new();
        let mut i: usize = 0;
        while i < n
            invariant
                i <= n,
                n == be@.len(),
                out@.len() == i,
                forall|k: int| 0 <= k < i ==> out@[k] == be@[n - 1 - k],
            decreases n - i,
        {
            out.push(be[n - 1 - i]);
            i = i + 1;
        }
        proof {
            assert(out@.reverse() =~= be@);
        }
        out
    }

    /// The number of bits of the canonical representative.
    pub fn bits(&self) -> (r: u64)
        ensures
            r == bit_length(self@),
    {
        let mut hi: u128 = self.hi;
        let mut lo: u128 = self.lo;
        let mut count: u64 = 0;
        proof {
            reveal_with_fuel(pow256, 33);
            lemma_bit_length_bound(self@, 32);
        }
        while hi != 0 || lo != 0
            invariant
                count as nat + bit_length(join(hi, lo)) == bit_length(self@),
                bit_length(self@) <= 256,
            decreases join(hi, lo),
        {
            let halved = halve(hi, lo);
            hi = halved.0;
            lo = halved.1;
            count = count + 1;
        }
        count
    }
}

} // verus!
