//! Algebraic laws of the field operations, stated over the residues that the
//! operations' contracts speak of.

use super::big::field_div;
use super::bytes::be_value;
use super::{field_add, field_mul, field_neg, field_sub, prime, Felt252};
use vstd::prelude::*;

verus! {

/// Zero is neutral for addition: `x + 0 == x` and `0 + x == x`.
pub proof fn law_additive_identity(x: nat)
    requires
        x < prime(),
    ensures
        field_add(x, 0) == x,
        field_add(0, x) == x,
{
    vstd::arithmetic::div_mod::lemma_small_mod(x, prime());
}

/// One is neutral for multiplication: `x * 1 == x` and `1 * x == x`.
pub proof fn law_multiplicative_identity(x: nat)
    requires
        x < prime(),
    ensures
        field_mul(x, 1) == x,
        field_mul(1, x) == x,
{
    assert(x * 1 == x && 1 * x == x);
    vstd::arithmetic::div_mod::lemma_small_mod(x, prime());
}

/// Negation is an involution: `-(-x) == x`.
pub proof fn law_double_negation(x: nat)
    requires
        x < prime(),
    ensures
        field_neg(field_neg(x)) == x,
{
}

/// Negation gives the additive inverse: `x + (-x) == 0`.
pub proof fn law_negation_cancels(x: nat)
    requires
        x < prime(),
    ensures
        field_add(x, field_neg(x)) == 0,
{
    if x != 0 {
        vstd::arithmetic::div_mod::lemma_mod_self_0(prime() as int);
    } else {
        vstd::arithmetic::div_mod::lemma_small_mod(0, prime());
    }
}

/// Subtraction undoes addition: `(x + y) - y == x`.
pub proof fn law_add_then_sub(x: nat, y: nat)
    requires
        x < prime(),
        y < prime(),
    ensures
        field_sub(field_add(x, y), y) == x,
{
    let p = prime() as int;
    let s = (x + y) as int;
    if s >= p {
        vstd::arithmetic::div_mod::lemma_fundamental_div_mod_converse(s, p, 1, s - p);
        vstd::arithmetic::div_mod::lemma_fundamental_div_mod_converse(s - p - y, p, -1, x as int);
    } else {
        vstd::arithmetic::div_mod::lemma_small_mod(s as nat, prime());
        vstd::arithmetic::div_mod::lemma_small_mod(x, prime());
    }
}

/// Addition undoes subtraction: `(x - y) + y == x`.
pub proof fn law_sub_then_add(x: nat, y: nat)
    requires
        x < prime(),
        y < prime(),
    ensures
        field_add(field_sub(x, y), y) == x,
        field_add(y, field_sub(x, y)) == x,
{
    let p = prime() as int;
    let d = x as int - y as int;
    if d < 0 {
        vstd::arithmetic::div_mod::lemma_fundamental_div_mod_converse(d, p, -1, d + p);
        vstd::arithmetic::div_mod::lemma_fundamental_div_mod_converse(d + p + y, p, 1, x as int);
    } else {
        vstd::arithmetic::div_mod::lemma_small_mod(d as nat, prime());
        vstd::arithmetic::div_mod::lemma_small_mod(x, prime());
    }
}

/// Multiplication of residues is commutative.
pub proof fn law_mul_commutative(x: nat, y: nat)
    ensures
        field_mul(x, y) == field_mul(y, x),
{
    assert(x * y == y * x) by (nonlinear_arith);
}

/// There is one quotient only: for a divisor `y` that is not zero, any two
/// residues that give `x` when multiplied by `y` are the same.
pub proof fn law_quotient_unique(x: nat, y: nat, q1: nat, q2: nat)
    requires
        q1 < prime(),
        q2 < prime(),
        0 < y < prime(),
        field_mul(q1, y) == x,
        field_mul(q2, y) == x,
    ensures
        q1 == q2,
{
    crate::felt::primality::lemma_nonzero_is_invertible(y);
    let p = prime() as int;
    let k = choose|k: nat| (#[trigger] (k * y)) % prime() == 1;
    // q == q * (y * k) == (q * y) * k == x * k, modulo the prime
    assert forall|q: nat| q < prime() && field_mul(q, y) == x implies q == (x * k) % prime() by {
        vstd::arithmetic::div_mod::lemma_mul_mod_noop_left((q * y) as int, k as int, p);
        assert((q * y) * k == q * (k * y)) by (nonlinear_arith);
        vstd::arithmetic::div_mod::lemma_mul_mod_noop_right(q as int, (k * y) as int, p);
        assert(q * 1 == q);
        vstd::arithmetic::div_mod::lemma_small_mod(q, prime());
    }
}

/// Division undoes multiplication by the divisor: `(x / y) * y == x`, for
/// every divisor but zero.
pub proof fn law_div_then_mul(x: nat, y: nat)
    requires
        x < prime(),
        0 < y < prime(),
    ensures
        field_div(x, y) < prime(),
        field_mul(field_div(x, y), y) == x,
{
    crate::felt::primality::lemma_nonzero_is_invertible(y);
    let p = prime() as int;
    let k = choose|k: nat| (#[trigger] (k * y)) % prime() == 1;
    let q = (x * k) % prime();
    // (x * k) * y == x * (k * y), which is x modulo the prime
    vstd::arithmetic::div_mod::lemma_mul_mod_noop_left((x * k) as int, y as int, p);
    assert((x * k) * y == x * (k * y)) by (nonlinear_arith);
    vstd::arithmetic::div_mod::lemma_mul_mod_noop_right(x as int, (k * y) as int, p);
    assert(x * 1 == x);
    vstd::arithmetic::div_mod::lemma_small_mod(x, prime());
    assert(q < prime() && field_mul(q, y) == x);
}

/// Reading back the big-endian bytes of a field element gives the element:
/// where `bytes` denote the value of `x` and `back` is the residue of what
/// they denote, `back` is `x`.
pub proof fn law_bytes_round_trip(x: Felt252, bytes: Seq<u8>, back: Felt252)
    requires
        x@ < prime(),
        be_value(bytes) == x@,
        back@ == be_value(bytes) % prime(),
    ensures
        back == x,
{
    vstd::arithmetic::div_mod::lemma_small_mod(x@, prime());
    Felt252::lemma_view_injective(back, x);
}

} // verus!
