//! The hints of public key recovery.

use crate::hint_processor::builtin_hint_processor::secp::bigint_utils::{
    bigint3_pack, limbs_fault, packed_86, BigInt3,
};
use crate::hint_processor::hint_processor_definition::HintReference;
use crate::serde::deserialize_program::ApTracking;
use crate::types::bignum::{has_inverse_mod, BigNum};
use crate::types::errors::math_errors::MathError;
use crate::types::exec_scope::{ExecutionScopes, ScopeValue};
use crate::vm::errors::hint_errors::HintError;
use crate::vm::vm_core::VirtualMachine;
use vstd::prelude::*;

verus! {

/// Whether `value` is the quotient of `n` by `m` modulo `p`: the residue that
/// gives `n` when multiplied by `m`.
pub open spec fn is_quotient_mod(value: int, n: int, m: int, p: int) -> bool {
    0 <= value < p && (value * m - n) % p == 0
}

/// The quotient of `n` by `m` modulo `p`. Fails where `m` has no inverse
/// modulo `p`.
pub fn div_mod(n: &BigNum, m: &BigNum, p: &BigNum) -> (r: Result<BigNum, MathError>)
    requires
        m@ >= 0,
        p@ > 0,
    ensures
        r is Ok <==> has_inverse_mod(m@, p@),
        r matches Ok(value) ==> is_quotient_mod(value@, n@, m@, p@),
        r matches Err(e) ==> e == MathError::DividedByZero,
{
    let inverse = match m.inverse_mod(p) {
        Some(inverse) => inverse,
        None => {
            return Err(MathError::DividedByZero);
        },
    };
    let (q, value) = n.mul(&inverse).div_mod_floor(p);
    proof {
        let (v, nn, a, mm, pp, qq) = (value@, n@, inverse@, m@, p@, q@);
        let k = (a * mm - 1) / pp;
        vstd::arithmetic::div_mod::lemma_fundamental_div_mod(a * mm - 1, pp);
        assert(v * mm - nn == pp * (nn * k - qq * mm)) by (nonlinear_arith)
            requires
                qq * pp + v == nn * a,
                a * mm - 1 == pp * k,
        ;
        vstd::arithmetic::div_mod::lemma_mod_multiples_basic(nn * k - qq * mm, pp);
        assert(pp * (nn * k - qq * mm) == (nn * k - qq * mm) * pp) by (nonlinear_arith);
    }
    Ok(value)
}

/// Whether the scope holds the integer `value` under the names `value` and
/// `res`.
pub open spec fn keeps(scopes: ExecutionScopes, value: int) -> bool {
    &&& scopes.lookup("value"@) matches Some(ScopeValue::BigInt(v)) && v@ == value
    &&& scopes.lookup("res"@) matches Some(ScopeValue::BigInt(w)) && w@ == value
}

/// Keeps `value` in the scope as `value` and as `res`.
pub fn keep_value(exec_scopes: &mut ExecutionScopes, value: BigNum)
    ensures
        keeps(*final(exec_scopes), value@),
{
    proof {
        reveal_strlit("value");
        reveal_strlit("res");
        assert("value"@ != "res"@) by {
            assert("value"@.len() == 5);
            assert("res"@.len() == 3);
        }
    }
    exec_scopes.insert_value("value", ScopeValue::BigInt(value.duplicate()));
    exec_scopes.insert_value("res", ScopeValue::BigInt(value));
}

/// The residue of `full` modulo the positive `n`.
pub open spec fn is_residue(full: int, n: int, residue: int) -> bool {
    0 <= residue < n && (full - residue) % n == 0
}

/// The residue of `full` modulo the positive `n`.
pub fn residue(full: &BigNum, n: &BigNum) -> (r: BigNum)
    requires
        n@ > 0,
    ensures
        is_residue(full@, n@, r@),
        r@ == full@ % n@,
{
    let (q, r) = full.div_mod_floor(n);
    proof {
        vstd::arithmetic::div_mod::lemma_fundamental_div_mod_converse(full@, n@, q@, r@);
        assert(full@ - r@ == q@ * n@);
        vstd::arithmetic::div_mod::lemma_mod_multiples_basic(q@, n@);
    }
    r
}

/// Computes `x / s` modulo `n` from the three structs `n`, `x` and `s` and keeps
/// it in the scope as `value` and as `res`. The modulus must be positive, and
/// `s` must have an inverse modulo `n`.
pub fn ec_recover_divmod_n_packed(
    vm: &mut VirtualMachine,
    exec_scopes: &mut ExecutionScopes,
    ids_data: &Vec<(String, HintReference)>,
    ap_tracking: &ApTracking,
) -> (r: Result<(), HintError>)
    ensures
        *final(vm) == *old(vm),
        (BigInt3::named(*old(vm), ids_data@, *ap_tracking, "n"@) is None || BigInt3::named(
            *old(vm),
            ids_data@,
            *ap_tracking,
            "x"@,
        ) is None || BigInt3::named(*old(vm), ids_data@, *ap_tracking, "s"@) is None) ==> r is Err,
        (BigInt3::named(*old(vm), ids_data@, *ap_tracking, "n"@) is Some && BigInt3::named(
            *old(vm),
            ids_data@,
            *ap_tracking,
            "x"@,
        ) is Some && BigInt3::named(*old(vm), ids_data@, *ap_tracking, "s"@) is Some) ==> {
            let n = BigInt3::named(*old(vm), ids_data@, *ap_tracking, "n"@).unwrap();
            let x = BigInt3::named(*old(vm), ids_data@, *ap_tracking, "x"@).unwrap();
            let s = BigInt3::named(*old(vm), ids_data@, *ap_tracking, "s"@).unwrap();
            let modulus = packed_86(n.d0@, n.d1@, n.d2@);
            if modulus <= 0 || !has_inverse_mod(
                packed_86(s.d0@, s.d1@, s.d2@) % modulus,
                modulus,
            ) {
                r == Err::<(), HintError>(HintError::Math(MathError::DividedByZero))
                    && *final(exec_scopes) == *old(exec_scopes)
            } else {
                r is Ok && exists|value: int|
                    #[trigger] is_quotient_mod(
                        value,
                        packed_86(x.d0@, x.d1@, x.d2@) % modulus,
                        packed_86(s.d0@, s.d1@, s.d2@) % modulus,
                        modulus,
                    ) && keeps(*final(exec_scopes), value)
            }
        },
        r is Ok ==> {
            &&& BigInt3::named(*old(vm), ids_data@, *ap_tracking, "n"@) matches Some(n)
            &&& BigInt3::named(*old(vm), ids_data@, *ap_tracking, "x"@) matches Some(x)
            &&& BigInt3::named(*old(vm), ids_data@, *ap_tracking, "s"@) matches Some(s)
            &&& exists|value: int, xm: int, sm: int|
                {
                    &&& #[trigger] is_quotient_mod(value, xm, sm, packed_86(n.d0@, n.d1@, n.d2@))
                    &&& is_residue(
                        packed_86(x.d0@, x.d1@, x.d2@),
                        packed_86(n.d0@, n.d1@, n.d2@),
                        xm,
                    )
                    &&& is_residue(
                        packed_86(s.d0@, s.d1@, s.d2@),
                        packed_86(n.d0@, n.d1@, n.d2@),
                        sm,
                    )
                    &&& keeps(*final(exec_scopes), value)
                }
        },
        (BigInt3::named(*old(vm), ids_data@, *ap_tracking, "n"@) is None) ==> (r matches Err(e)
            && limbs_fault(*old(vm), ids_data@, *ap_tracking, "n"@, e)),
        (BigInt3::named(*old(vm), ids_data@, *ap_tracking, "n"@) is Some && BigInt3::named(*old(vm), ids_data@, *ap_tracking, "x"@) is None) ==> (r matches Err(e)
            && limbs_fault(*old(vm), ids_data@, *ap_tracking, "x"@, e)),
        (BigInt3::named(*old(vm), ids_data@, *ap_tracking, "n"@) is Some && BigInt3::named(*old(vm), ids_data@, *ap_tracking, "x"@) is Some && BigInt3::named(*old(vm), ids_data@, *ap_tracking, "s"@) is None) ==> (r matches Err(e)
            && limbs_fault(*old(vm), ids_data@, *ap_tracking, "s"@, e)),
{
    let n = match BigInt3::from_var_name("n", vm, ids_data, ap_tracking) {
        Ok(limbs) => bigint3_pack(&limbs),
        Err(e) => {
            return Err(e);
        },
    };
    let x_full = match BigInt3::from_var_name("x", vm, ids_data, ap_tracking) {
        Ok(limbs) => bigint3_pack(&limbs),
        Err(e) => {
            return Err(e);
        },
    };
    let s_full = match BigInt3::from_var_name("s", vm, ids_data, ap_tracking) {
        Ok(limbs) => bigint3_pack(&limbs),
        Err(e) => {
            return Err(e);
        },
    };
    if n.negative || n.is_zero() {
        return Err(HintError::Math(MathError::DividedByZero));
    }
    let x = residue(&x_full, &n);
    let s = residue(&s_full, &n);
    let value = match div_mod(&x, &s, &n) {
        Ok(value) => value,
        Err(e) => {
            return Err(HintError::Math(e));
        },
    };
    let ghost v = value@;
    keep_value(exec_scopes, value);
    proof {
        assert(is_quotient_mod(v, x@, s@, n@));
    }
    Ok(())
}

/// Computes `a - b` from the two structs `a` and `b` and keeps it in the scope
/// as `value` and as `res`.
pub fn ec_recover_sub_a_b(
    vm: &mut VirtualMachine,
    exec_scopes: &mut ExecutionScopes,
    ids_data: &Vec<(String, HintReference)>,
    ap_tracking: &ApTracking,
) -> (r: Result<(), HintError>)
    ensures
        *final(vm) == *old(vm),
        match (
            BigInt3::named(*old(vm), ids_data@, *ap_tracking, "a"@),
            BigInt3::named(*old(vm), ids_data@, *ap_tracking, "b"@),
        ) {
            (Some(a), Some(b)) => r is Ok && keeps(
                *final(exec_scopes),
                packed_86(a.d0@, a.d1@, a.d2@) - packed_86(b.d0@, b.d1@, b.d2@),
            ),
            _ => r is Err && *final(exec_scopes) == *old(exec_scopes),
        },
        (BigInt3::named(*old(vm), ids_data@, *ap_tracking, "a"@) is None) ==> (r matches Err(e)
            && limbs_fault(*old(vm), ids_data@, *ap_tracking, "a"@, e)),
        (BigInt3::named(*old(vm), ids_data@, *ap_tracking, "a"@) is Some && BigInt3::named(*old(vm), ids_data@, *ap_tracking, "b"@) is None) ==> (r matches Err(e)
            && limbs_fault(*old(vm), ids_data@, *ap_tracking, "b"@, e)),
{
    let a = match BigInt3::from_var_name("a", vm, ids_data, ap_tracking) {
        Ok(limbs) => bigint3_pack(&limbs),
        Err(e) => {
            return Err(e);
        },
    };
    let b = match BigInt3::from_var_name("b", vm, ids_data, ap_tracking) {
        Ok(limbs) => bigint3_pack(&limbs),
        Err(e) => {
            return Err(e);
        },
    };
    let value = a.sub(&b);
    keep_value(exec_scopes, value);
    Ok(())
}

} // verus!
