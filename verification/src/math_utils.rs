//! Exact division of machine integers and arithmetic on points of an elliptic
//! curve over the field.

use crate::felt::big::field_div;
use crate::felt::{field_add, field_mul, field_neg, field_pow, field_sub, prime, Felt252};
use crate::types::errors::math_errors::MathError;
use vstd::arithmetic::power::pow;
use vstd::prelude::*;

verus! {

/// Divides `x` by `y` where the division is exact.
pub fn safe_div_usize(x: usize, y: usize) -> (r: Result<usize, MathError>)
    ensures
        y == 0 ==> r == Err::<usize, MathError>(MathError::DividedByZero),
        y != 0 && x % y != 0 ==> r == Err::<usize, MathError>(MathError::SafeDivFailUsize(x, y)),
        y != 0 && x % y == 0 ==> r == Ok::<usize, MathError>(x / y),
{
    if y == 0 {
        return Err(MathError::DividedByZero);
    }
    if x % y != 0 {
        return Err(MathError::SafeDivFailUsize(x, y));
    }
    Ok(x / y)
}

/// Division rounded up.
pub fn div_ceil_usize(x: usize, y: usize) -> (r: usize)
    requires
        y != 0,
    ensures
        r == (if x % y == 0 { (x / y) as int } else { x / y + 1 }),
{
    let q: usize = x / y;
    proof {
        vstd::arithmetic::div_mod::lemma_fundamental_div_mod(x as int, y as int);
        assert(x % y != 0 ==> q < usize::MAX) by (nonlinear_arith)
            requires
                q == x / y,
                x == y * (x / y) + x % y,
                0 < y,
                0 <= x % y,
                x <= usize::MAX,
        ;
    }
    if x % y == 0 {
        q
    } else {
        q + 1
    }
}

/// A point of the plane over the field, by its coordinates.
pub type Point = (nat, nat);

/// The slope of the line through two points with different x coordinates.
pub open spec fn line_slope_spec(a: Point, b: Point) -> nat {
    field_div(field_sub(a.1, b.1), field_sub(a.0, b.0))
}

/// The third point of the curve on the line with slope `m` through `a` and a
/// point with x coordinate `bx`, mirrored at the x axis.
pub open spec fn third_point(m: nat, a: Point, bx: nat) -> Point {
    let x = field_sub(field_sub(field_mul(m, m), a.0), bx);
    let y = field_sub(field_mul(m, field_sub(a.0, x)), a.1);
    (x, y)
}

/// The sum of two points with different x coordinates.
pub open spec fn ec_add_spec(a: Point, b: Point) -> Point {
    third_point(line_slope_spec(a, b), a, b.0)
}

/// The slope of the tangent in a point of the curve `y^2 = x^3 + alpha * x + beta`.
pub open spec fn ec_double_slope_spec(a: Point, alpha: nat) -> nat {
    field_div(
        field_add(field_mul(field_mul(3, a.0), a.0), alpha),
        field_mul(2, a.1),
    )
}

/// The double of a point of the curve `y^2 = x^3 + alpha * x + beta`.
pub open spec fn ec_double_spec(a: Point, alpha: nat) -> Point {
    third_point(ec_double_slope_spec(a, alpha), a, a.0)
}

/// The third point on a line: see `third_point`.
fn third_point_exec(m: &Felt252, a: &(Felt252, Felt252), bx: &Felt252) -> (r: (Felt252, Felt252))
    ensures
        (r.0@, r.1@) == third_point(m@, (a.0@, a.1@), bx@),
        r.0@ < prime(),
        r.1@ < prime(),
{
    let x = m.mul(m).sub(&a.0).sub(bx);
    let y = m.mul(&a.0.sub(&x)).sub(&a.1);
    (x, y)
}

/// Adds two points of an elliptic curve over the field. Fails where their x
/// coordinates are equal, and there only.
pub fn ec_add(a: &(Felt252, Felt252), b: &(Felt252, Felt252)) -> (r: Result<
    (Felt252, Felt252),
    MathError,
>)
    ensures
        r is Ok <==> field_sub(a.0@, b.0@) != 0,
        r matches Ok(p) ==> (p.0@, p.1@) == ec_add_spec((a.0@, a.1@), (b.0@, b.1@)) && p.0@
            < prime() && p.1@ < prime(),
        r matches Err(e) ==> e == MathError::DividedByZero,
{
    match a.1.sub(&b.1).div(&a.0.sub(&b.0)) {
        Ok(m) => Ok(third_point_exec(&m, a, &b.0)),
        Err(e) => Err(e),
    }
}

/// Doubles a point of the curve `y^2 = x^3 + alpha * x + beta` over the field.
/// Fails where twice its y coordinate is zero, and there only.
pub fn ec_double(a: &(Felt252, Felt252), alpha: &Felt252) -> (r: Result<
    (Felt252, Felt252),
    MathError,
>)
    ensures
        r is Ok <==> field_mul(2, a.1@) != 0,
        r matches Ok(p) ==> (p.0@, p.1@) == ec_double_spec((a.0@, a.1@), alpha@) && p.0@
            < prime() && p.1@ < prime(),
        r matches Err(e) ==> e == MathError::DividedByZero,
{
    let three = Felt252::from_u128(3);
    let two = Felt252::from_u128(2);
    let numerator = three.mul(&a.0).mul(&a.0).add(alpha);
    let denominator = two.mul(&a.1);
    match numerator.div(&denominator) {
        Ok(m) => Ok(third_point_exec(&m, a, &a.0)),
        Err(e) => Err(e),
    }
}

/// Whether `root` is the smaller of the two square roots of `n` in the field.
pub open spec fn is_smaller_root(n: nat, root: nat) -> bool {
    field_mul(root, root) == n && root <= field_neg(root) || (root == 0 && n == 0)
}

/// The state of the root search after `i` rounds, for the powers `a` of the
/// element and `d` of the non-residue: the exponent found so far and the
/// exponent of the next test. A round tests whether `a * d^m`, raised to the
/// test exponent, is minus one; where it is, bit `i` of `m` is set; the test
/// exponent is halved.
pub open spec fn search_state(a: nat, d: nat, i: nat) -> (nat, nat)
    decreases i,
{
    if i == 0 {
        (0, ((1 * pow(2, 191)) % (prime() as int)) as nat)
    } else {
        let (m, exponent) = search_state(a, d, (i - 1) as nat);
        let tested = field_pow(field_mul(a, field_pow(d, m)), exponent);
        (
            if tested == prime() - 1 {
                field_add(m, ((1 * pow(2, (i - 1) as nat)) % (prime() as int)) as nat)
            } else {
                m
            },
            (exponent as int / pow(2, 1)) as nat,
        )
    }
}

/// The element that the algorithm of Tonelli and Shanks arrives at for `n`:
/// with `t` the odd part of the prime less one, `n^((t + 1) / 2) * d^(m / 2)`
/// for the exponent `m` that the search finds, or its negative where that is
/// smaller.
pub open spec fn root_candidate(n: nat) -> nat {
    let t = ((prime() - 1) / pow(2, 192)) as nat;
    let a = field_pow(n, t);
    let d = field_pow(3, t);
    let m = search_state(a, d, 192).0;
    let half = (((t as int + 1) % (prime() as int)) / pow(2, 1)) as nat;
    let root = field_mul(field_pow(n, half), field_pow(d, (m as int / pow(2, 1)) as nat));
    if root < field_neg(root) {
        root
    } else {
        field_neg(root)
    }
}

/// What `sqrt` returns for `n`: zero and one are their own roots; else the
/// candidate of the algorithm, where its square is `n`.
pub open spec fn found_root(n: nat) -> Option<nat> {
    if n <= 1 {
        Some(n)
    } else if field_mul(root_candidate(n), root_candidate(n)) == n && root_candidate(n)
        <= field_neg(root_candidate(n)) {
        Some(root_candidate(n))
    } else {
        None
    }
}

/// A square root of `n` in the field: the smaller of the two, found by the
/// algorithm of Tonelli and Shanks and checked by squaring. `None` where the
/// search ends on an element whose square is not `n`, as it does for an
/// element that has no square root.
pub fn sqrt(n: &Felt252) -> (r: Option<Felt252>)
    ensures
        r matches Some(root) ==> is_smaller_root(n@, root@) && root@ < prime(),
        n@ <= 1 ==> r == Some(*n),
        match found_root(n@) {
            Some(root) => r == Some(Felt252::from_int(root as int)),
            None => r is None,
        },
{
    n.note_canonical();
    if n.is_zero() || n.is_one() {
        proof {
            vstd::arithmetic::div_mod::lemma_small_mod(n@, prime());
            assert(n@ * n@ == n@) by (nonlinear_arith)
                requires
                    n@ == 0 || n@ == 1,
            ;
            Felt252::lemma_from_int_of_view(*n);
        }
        return Some(*n);
    }
    let max_felt = Felt252::max_value();
    let trailing_prime = max_felt.shr(192);
    let a = n.pow_felt(&trailing_prime);
    let d = Felt252::from_u128(3).pow_felt(&trailing_prime);
    let mut m = Felt252::zero();
    let mut exponent = Felt252::one().shl(191);
    let mut i: usize = 0;
    while i < 192
        invariant
            i <= 192,
            max_felt@ == prime() - 1,
            (m@, exponent@) == search_state(a@, d@, i as nat),
        decreases 192 - i,
    {
        let adm = a.mul(&d.pow_felt(&m)).pow_felt(&exponent);
        exponent = exponent.shr(1);
        proof {
            if adm@ == max_felt@ {
                Felt252::lemma_view_injective(adm, max_felt);
            }
        }
        if adm == max_felt {
            m = m.add(&Felt252::one().shl(i));
        }
        i = i + 1;
    }
    let half = trailing_prime.add_usize(1).shr(1);
    let root_1 = n.pow_felt(&half).mul(&d.pow_felt(&m.shr(1)));
    let root_2 = root_1.neg();
    let root = if root_1.lt(&root_2) {
        root_1
    } else {
        root_2
    };
    root.note_canonical();
    let square = root.mul(&root);
    proof {
        if square@ == n@ {
            Felt252::lemma_view_injective(square, *n);
        }
        assert(root@ == root_candidate(n@));
        Felt252::lemma_from_int_of_view(root);
    }
    if square == *n && root.le(&root.neg()) {
        Some(root)
    } else {
        None
    }
}

} // verus!
