//! The hints of the library of unsigned integers of 384 bits.

use crate::felt::bytes::bit_length;
use crate::felt::{prime, Felt252};
use crate::hint_processor::builtin_hint_processor::hint_utils::{
    get_integer_from_var_name, get_relocatable_from_var_name, ids_addr, ids_integer,
    insert_value_into_ap, integer_fault, write_verdict, written,
};
use crate::hint_processor::builtin_hint_processor::math_utils::{
    floor_root, lemma_floor_root_unique, lemma_second_write, only_wrote, three_writes, two_128,
    two_writes, write_felt, write_three,
};
use crate::hint_processor::builtin_hint_processor::secp::bigint_utils::{
    lemma_limbs_apart, limb_128, limb_at, limbs_apart, limbs_fault, limbs_verdict, packed_128,
    read_limb, same_beside, two_pow_128, BigInt3,
};
use crate::hint_processor::hint_processor_definition::HintReference;
use crate::serde::deserialize_program::ApTracking;
use crate::types::bignum::BigNum;
use crate::types::errors::math_errors::MathError;
use crate::types::relocatable::{MaybeRelocatable, Relocatable};
use crate::vm::errors::hint_errors::HintError;
use crate::vm::vm_core::VirtualMachine;
use vstd::prelude::*;
use vstd::string::{StrSliceExecFns, StringExecFns};

verus! {

/// An unsigned integer of 384 bits in three limbs of 128 bits.
pub type Uint384 = BigInt3;

/// The three limbs of an expanded integer that a division needs: the cells
/// one, three and five after its address.
#[derive(Debug, Clone, Copy, PartialEq, Eq, Structural)]
pub struct Uint384ExpandReduced {
    pub b01: Felt252,
    pub b23: Felt252,
    pub b45: Felt252,
}

impl Uint384ExpandReduced {
    /// The three limbs of the struct at `addr`.
    pub open spec fn at(vm: VirtualMachine, addr: Relocatable) -> Option<Uint384ExpandReduced> {
        match (limb_at(vm, addr, 1), limb_at(vm, addr, 3), limb_at(vm, addr, 5)) {
            (Some(b01), Some(b23), Some(b45)) => Some(Uint384ExpandReduced { b01, b23, b45 }),
            _ => None,
        }
    }

    /// The three limbs of the struct `name`.
    pub open spec fn named(
        vm: VirtualMachine,
        ids_data: Seq<(String, HintReference)>,
        ap_tracking: ApTracking,
        name: Seq<char>,
    ) -> Option<Uint384ExpandReduced> {
        match ids_addr(vm, ids_data, ap_tracking, name) {
            Some(addr) => Uint384ExpandReduced::at(vm, addr),
            None => None,
        }
    }

    /// Reads the three limbs of the struct `name` at `addr`.
    pub fn from_base_addr(addr: Relocatable, name: &str, vm: &VirtualMachine) -> (r: Result<
        Uint384ExpandReduced,
        HintError,
    >)
        ensures
            match Uint384ExpandReduced::at(*vm, addr) {
                Some(limbs) => r == Ok::<Uint384ExpandReduced, HintError>(limbs),
                None => r matches Err(HintError::IdentifierHasNoMember(n, _)) && n@ == name@,
            },
    {
        let b01 = match read_limb(vm, addr, 1, name, "b01") {
            Ok(d) => d,
            Err(e) => {
                return Err(e);
            },
        };
        let b23 = match read_limb(vm, addr, 3, name, "b23") {
            Ok(d) => d,
            Err(e) => {
                return Err(e);
            },
        };
        let b45 = match read_limb(vm, addr, 5, name, "b45") {
            Ok(d) => d,
            Err(e) => {
                return Err(e);
            },
        };
        Ok(Uint384ExpandReduced { b01, b23, b45 })
    }

    /// Reads the three limbs of the struct `name`.
    pub fn from_var_name(
        name: &str,
        vm: &VirtualMachine,
        ids_data: &Vec<(String, HintReference)>,
        ap_tracking: &ApTracking,
    ) -> (r: Result<Uint384ExpandReduced, HintError>)
        ensures
            match Uint384ExpandReduced::named(*vm, ids_data@, *ap_tracking, name@) {
                Some(limbs) => r == Ok::<Uint384ExpandReduced, HintError>(limbs),
                None => r is Err,
            },
    {
        let base_addr = match get_relocatable_from_var_name(name, vm, ids_data, ap_tracking) {
            Ok(addr) => addr,
            Err(e) => {
                return Err(e);
            },
        };
        Uint384ExpandReduced::from_base_addr(base_addr, name, vm)
    }

    /// The unsigned integer of the limbs, 128 bits each.
    pub fn pack(&self) -> (r: BigNum)
        ensures
            r@ == packed_128(self.b01@, self.b23@, self.b45@),
    {
        BigInt3 { d0: self.b01, d1: self.b23, d2: self.b45 }.pack()
    }
}

/// Whether `limbs` are the three limbs of 128 bits of `num`.
pub open spec fn is_split(num: int, limbs: BigInt3) -> bool {
    &&& limbs.d0@ == num % limb_128()
    &&& limbs.d1@ == (num / limb_128()) % limb_128()
    &&& limbs.d2@ == ((num / limb_128()) / limb_128()) % limb_128()
}

/// The three limbs of 128 bits of `num`.
pub open spec fn limbs_of(num: int) -> BigInt3 {
    BigInt3 {
        d0: Felt252::from_int(num % limb_128()),
        d1: Felt252::from_int((num / limb_128()) % limb_128()),
        d2: Felt252::from_int(((num / limb_128()) / limb_128()) % limb_128()),
    }
}

/// The limbs that `split` gives are `limbs_of` the integer.
pub proof fn lemma_limbs_of(num: int, limbs: BigInt3)
    requires
        is_split(num, limbs),
        limbs.d0@ < prime(),
        limbs.d1@ < prime(),
        limbs.d2@ < prime(),
    ensures
        limbs == limbs_of(num),
{
    Felt252::lemma_from_int_of_view(limbs.d0);
    Felt252::lemma_from_int_of_view(limbs.d1);
    Felt252::lemma_from_int_of_view(limbs.d2);
}

/// Whether `middle` is `before` once the limbs `first` were written to the
/// three cells at `at` and accepted: the struct holds the limbs, and the cells
/// beside it are as they were.
pub open spec fn limbs_stored(
    before: VirtualMachine,
    middle: VirtualMachine,
    at: Relocatable,
    first: BigInt3,
) -> bool {
    &&& only_wrote(before, middle)
    &&& same_beside(before.memory, middle.memory, at)
    &&& BigInt3::at(middle, at) == Some(first)
}

/// Whether `r` is what writing the limbs `first` to the struct `a` and then
/// the limbs `second` to the struct `b` comes to: the error of the first
/// write that fails, else what the second write comes to in the machine that
/// the first write leaves, where the second name is resolved. Where the
/// second name resolves before the first write and the two structs lie apart,
/// the second write comes to what it would have come to before the first.
pub open spec fn two_struct_writes(
    vm: VirtualMachine,
    ids_data: Seq<(String, HintReference)>,
    ap_tracking: ApTracking,
    a: Seq<char>,
    first: BigInt3,
    b: Seq<char>,
    second: BigInt3,
    r: Result<(), HintError>,
) -> bool {
    match ids_addr(vm, ids_data, ap_tracking, a) {
        None => r matches Err(HintError::UnknownIdentifier(n)) && n@ == a,
        Some(at) => match limbs_verdict(vm, at, first) {
            Err(e) => r == Err::<(), HintError>(e),
            Ok(()) => (match ids_addr(vm, ids_data, ap_tracking, b) {
                Some(addr) => limbs_apart(at, addr) ==> r == limbs_verdict(vm, addr, second),
                None => true,
            }) && exists|middle: VirtualMachine| #[trigger]
                limbs_stored(vm, middle, at, first) && match ids_addr(
                    middle,
                    ids_data,
                    ap_tracking,
                    b,
                ) {
                    Some(addr) => r == limbs_verdict(middle, addr, second),
                    None => r matches Err(HintError::UnknownIdentifier(n)) && n@ == b,
                },
        },
    }
}

/// Whether `r` is what dividing `num` by `den` and writing the limbs of
/// quotient and remainder comes to: the error of a zero divisor, else what the
/// writes to the structs `quotient` and `remainder` come to.
pub open spec fn division_written(
    vm: VirtualMachine,
    ids_data: Seq<(String, HintReference)>,
    ap_tracking: ApTracking,
    num: int,
    den: int,
    r: Result<(), HintError>,
) -> bool {
    if den == 0 {
        r == Err::<(), HintError>(HintError::Math(MathError::DividedByZero))
    } else {
        two_struct_writes(
            vm,
            ids_data,
            ap_tracking,
            "quotient"@,
            limbs_of(num / den),
            "remainder"@,
            limbs_of(num % den),
            r,
        )
    }
}

/// Divides `a` by `div` and writes the limbs of quotient and remainder to the
/// structs `quotient` and `remainder`.
fn divide_and_write(
    a: &BigNum,
    div: &BigNum,
    vm: &mut VirtualMachine,
    ids_data: &Vec<(String, HintReference)>,
    ap_tracking: &ApTracking,
) -> (r: Result<(), HintError>)
    requires
        a@ >= 0,
        div@ >= 0,
    ensures
        only_wrote(*old(vm), *final(vm)),
        div@ == 0 ==> r == Err::<(), HintError>(HintError::Math(MathError::DividedByZero))
            && *final(vm) == *old(vm),
        division_written(*old(vm), ids_data@, *ap_tracking, a@, div@, r),
        r is Ok ==> div@ > 0 && (BigInt3::named(
            *final(vm),
            ids_data@,
            *ap_tracking,
            "remainder"@,
        ) matches Some(rem) && is_split(a@ % div@, rem)) && (ids_addr(
            *old(vm),
            ids_data@,
            *ap_tracking,
            "quotient"@,
        ) matches Some(q_addr) && BigInt3::at(*final(vm), q_addr) matches Some(quot) && is_split(
            a@ / div@,
            quot,
        )),
{
    if div.is_zero() {
        return Err(HintError::Math(MathError::DividedByZero));
    }
    let (quotient, remainder) = a.div_mod_floor(div);
    proof {
        vstd::arithmetic::div_mod::lemma_fundamental_div_mod_converse(
            a@,
            div@,
            quotient@,
            remainder@,
        );
        vstd::arithmetic::div_mod::lemma_div_pos_is_pos(a@, div@);
    }
    let quotient_split = BigInt3::split(&quotient);
    let remainder_split = BigInt3::split(&remainder);
    proof {
        lemma_limbs_of(quotient@, quotient_split);
        lemma_limbs_of(remainder@, remainder_split);
    }
    match quotient_split.insert_from_var_name("quotient", vm, ids_data, ap_tracking) {
        Ok(()) => {},
        Err(e) => {
            return Err(e);
        },
    }
    let ghost middle = *vm;
    proof {
        let q_addr = ids_addr(*old(vm), ids_data@, *ap_tracking, "quotient"@).unwrap();
        crate::hint_processor::builtin_hint_processor::hint_utils::lemma_ids_addr_monotone(
            *old(vm),
            middle,
            ids_data@,
            *ap_tracking,
            "quotient"@,
        );
        assert(BigInt3::at(middle, q_addr) == Some(quotient_split));
        assert(limbs_stored(*old(vm), middle, q_addr, quotient_split));
        if ids_addr(*old(vm), ids_data@, *ap_tracking, "remainder"@) is Some {
            let at = ids_addr(*old(vm), ids_data@, *ap_tracking, "quotient"@).unwrap();
            let addr = ids_addr(*old(vm), ids_data@, *ap_tracking, "remainder"@).unwrap();
            crate::hint_processor::builtin_hint_processor::hint_utils::lemma_ids_addr_monotone(
                *old(vm),
                middle,
                ids_data@,
                *ap_tracking,
                "remainder"@,
            );
            if limbs_apart(at, addr) {
                lemma_limbs_apart(*old(vm), middle, at, addr, remainder_split);
            }
        }
    }
    match remainder_split.insert_from_var_name("remainder", vm, ids_data, ap_tracking) {
        Ok(()) => {},
        Err(e) => {
            return Err(e);
        },
    }
    proof {
        let q_addr = ids_addr(*old(vm), ids_data@, *ap_tracking, "quotient"@).unwrap();
        crate::hint_processor::builtin_hint_processor::hint_utils::lemma_ids_addr_monotone(
            *old(vm),
            middle,
            ids_data@,
            *ap_tracking,
            "quotient"@,
        );
        assert(BigInt3::at(middle, q_addr) == Some(quotient_split));
        assert(BigInt3::at(*vm, q_addr) == Some(quotient_split));
    }
    Ok(())
}

/// Divides the integer in the struct `a` by the one in the struct `div` and
/// writes the limbs of quotient and remainder to the structs `quotient` and
/// `remainder`.
pub fn uint384_unsigned_div_rem(
    vm: &mut VirtualMachine,
    ids_data: &Vec<(String, HintReference)>,
    ap_tracking: &ApTracking,
) -> (r: Result<(), HintError>)
    ensures
        only_wrote(*old(vm), *final(vm)),
        (BigInt3::named(*old(vm), ids_data@, *ap_tracking, "a"@) is None || BigInt3::named(
            *old(vm),
            ids_data@,
            *ap_tracking,
            "div"@,
        ) is None) ==> r is Err && *final(vm) == *old(vm),
        match (
            BigInt3::named(*old(vm), ids_data@, *ap_tracking, "a"@),
            BigInt3::named(*old(vm), ids_data@, *ap_tracking, "div"@),
        ) {
            (Some(a), Some(div)) => {
            let num = packed_128(a.d0@, a.d1@, a.d2@);
            let den = packed_128(div.d0@, div.d1@, div.d2@);
            &&& division_written(*old(vm), ids_data@, *ap_tracking, num, den, r)
            &&& den == 0 ==> r == Err::<(), HintError>(HintError::Math(MathError::DividedByZero))
                && *final(vm) == *old(vm)
            &&& r is Ok ==> den > 0 && (BigInt3::named(
                *final(vm),
                ids_data@,
                *ap_tracking,
                "remainder"@,
            ) matches Some(rem) && is_split(num % den, rem)) && (ids_addr(
                *old(vm),
                ids_data@,
                *ap_tracking,
                "quotient"@,
            ) matches Some(q_addr) && BigInt3::at(*final(vm), q_addr) matches Some(quot)
                && is_split(num / den, quot))
            },
            _ => true,
        },
        (BigInt3::named(*old(vm), ids_data@, *ap_tracking, "a"@) is None) ==> (r matches Err(e)
            && limbs_fault(*old(vm), ids_data@, *ap_tracking, "a"@, e)),
        (BigInt3::named(*old(vm), ids_data@, *ap_tracking, "a"@) is Some && BigInt3::named(*old(vm), ids_data@, *ap_tracking, "div"@) is None) ==> (r matches Err(e)
            && limbs_fault(*old(vm), ids_data@, *ap_tracking, "div"@, e)),
{
    let a = match BigInt3::from_var_name("a", vm, ids_data, ap_tracking) {
        Ok(limbs) => limbs.pack(),
        Err(e) => {
            return Err(e);
        },
    };
    let div = match BigInt3::from_var_name("div", vm, ids_data, ap_tracking) {
        Ok(limbs) => limbs.pack(),
        Err(e) => {
            return Err(e);
        },
    };
    proof {
        lemma_packed_not_negative();
    }
    divide_and_write(&a, &div, vm, ids_data, ap_tracking)
}

/// Three limbs pack to an integer that is not negative.
pub proof fn lemma_packed_not_negative()
    ensures
        forall|d0: nat, d1: nat, d2: nat| #[trigger] packed_128(d0, d1, d2) >= 0,
{
    assert forall|d0: nat, d1: nat, d2: nat| #[trigger] packed_128(d0, d1, d2) >= 0 by {
        let m = limb_128();
        assert(d1 * m >= 0 && d2 * m * m >= 0) by (nonlinear_arith)
            requires
                m > 0,
        ;
    }
}

/// Splits `a` into its lower 128 bits and the rest and writes them to `low`
/// and `high`.
pub fn uint384_split_128(
    vm: &mut VirtualMachine,
    ids_data: &Vec<(String, HintReference)>,
    ap_tracking: &ApTracking,
) -> (r: Result<(), HintError>)
    ensures
        only_wrote(*old(vm), *final(vm)),
        ids_integer(*old(vm), ids_data@, *ap_tracking, "a"@) is None ==> r is Err && *final(vm)
            == *old(vm),
        ids_integer(*old(vm), ids_data@, *ap_tracking, "a"@) is Some ==> two_writes(
            *old(vm),
            ids_data@,
            *ap_tracking,
            "low"@,
            Felt252::from_int(
                ids_integer(*old(vm), ids_data@, *ap_tracking, "a"@).unwrap()@ as int
                    % two_128() as int,
            ),
            "high"@,
            Felt252::from_int(
                ids_integer(*old(vm), ids_data@, *ap_tracking, "a"@).unwrap()@ as int
                    / two_128() as int,
            ),
            r,
        ),
        r is Ok ==> {
            &&& ids_integer(*old(vm), ids_data@, *ap_tracking, "a"@) matches Some(a)
            &&& ids_addr(*old(vm), ids_data@, *ap_tracking, "low"@) matches Some(low) && final(vm).memory.cell(low) matches Some(MaybeRelocatable::Int(l)) && l@ == a@ % two_128()
            &&& ids_addr(*final(vm), ids_data@, *ap_tracking, "high"@) matches Some(high)
                && final(vm).memory.cell(high) matches Some(MaybeRelocatable::Int(h)) && h@ == a@
                / two_128()
        },
        ids_integer(*old(vm), ids_data@, *ap_tracking, "a"@) is None ==> (r matches Err(e)
            && integer_fault(*old(vm), ids_data@, *ap_tracking, "a"@, e)),
{
    let a = match get_integer_from_var_name("a", vm, ids_data, ap_tracking) {
        Ok(a) => a,
        Err(e) => {
            return Err(e);
        },
    };
    let (high, low) = a.split_words();
    proof {
        vstd::arithmetic::div_mod::lemma_small_mod(high@, prime());
        vstd::arithmetic::div_mod::lemma_small_mod(low@, prime());
        Felt252::lemma_is_from_int(high, a@ as int / two_128() as int);
        Felt252::lemma_is_from_int(low, a@ as int % two_128() as int);
    }
    match write_felt("low", low, vm, ids_data, ap_tracking) {
        Ok(()) => {},
        Err(e) => {
            return Err(e);
        },
    }
    let ghost middle = *vm;
    proof {
        lemma_second_write(*old(vm), middle, ids_data@, *ap_tracking, "low"@, low, "high"@, high);
    }
    match write_felt("high", high, vm, ids_data, ap_tracking) {
        Ok(()) => {},
        Err(e) => {
            return Err(e);
        },
    }
    proof {
        let low_addr = ids_addr(*old(vm), ids_data@, *ap_tracking, "low"@).unwrap();
        assert(middle.memory.cell(low_addr) == Some(MaybeRelocatable::Int(low)));
    }
    Ok(())
}

/// Whether the last part of the dotted name `name` is `SHIFT`.
pub open spec fn names_shift(name: Seq<char>) -> bool {
    name == "SHIFT"@ || (name.len() >= 6 && name.subrange(name.len() - 6, name.len() as int)
        == ".SHIFT"@)
}

/// Whether the last part of the dotted name `name` is `SHIFT`.
fn is_shift_name(name: &String) -> (r: bool)
    ensures
        r == names_shift(name@),
{
    proof {
        reveal_strlit("SHIFT");
        reveal_strlit(".SHIFT");
    }
    if *name == String::from_str("SHIFT") {
        return true;
    }
    let text = name.as_str();
    let n = text.unicode_len();
    if n < 6 {
        return false;
    }
    let tail = String::from_str(text.substring_char(n - 6, n));
    tail == String::from_str(".SHIFT")
}

/// The first constant whose dotted name ends in `SHIFT`.
pub open spec fn shift_constant(constants: Seq<(String, Felt252)>, from: int) -> Option<Felt252>
    decreases constants.len() - from,
{
    if from < 0 || from >= constants.len() {
        None
    } else if names_shift(constants[from].0@) {
        Some(constants[from].1)
    } else {
        shift_constant(constants, from + 1)
    }
}

/// The first constant whose dotted name ends in `SHIFT`.
pub fn find_shift(constants: &Vec<(String, Felt252)>) -> (r: Result<Felt252, HintError>)
    ensures
        match shift_constant(constants@, 0) {
            Some(shift) => r == Ok::<Felt252, HintError>(shift),
            None => r matches Err(HintError::MissingConstant(n)) && n@ == "SHIFT"@,
        },
{
    let mut i: usize = 0;
    while i < constants.len()
        invariant
            i <= constants@.len(),
            shift_constant(constants@, 0) == shift_constant(constants@, i as int),
        decreases constants@.len() - i,
    {
        if is_shift_name(&constants[i].0) {
            return Ok(constants[i].1);
        }
        i = i + 1;
    }
    Err(HintError::MissingConstant(String::from_str("SHIFT")))
}

/// The carry of a limb sum: 1 where the sum reaches `shift`, else 0.
pub open spec fn carry_of(sum: nat, shift: nat) -> nat {
    if sum >= shift {
        1
    } else {
        0
    }
}

/// The carry of the sum of two limbs and a carry: see `carry_of`.
fn limb_carry(a: &Felt252, b: &Felt252, carry: &Felt252, shift: &BigNum) -> (r: Felt252)
    requires
        shift@ >= 0,
    ensures
        r@ == carry_of(a@ + b@ + carry@, shift@ as nat),
        r == Felt252::from_int(carry_of(a@ + b@ + carry@, shift@ as nat) as int),
{
    let sum = BigNum::from_felt(a).add(&BigNum::from_felt(b)).add(&BigNum::from_felt(carry));
    if sum.lt_magnitude(shift) {
        Felt252::constant(0)
    } else {
        Felt252::constant(1)
    }
}

/// Adds the integers in the structs `a` and `b` limb by limb and writes the
/// carry of each limb to `carry_d0`, `carry_d1` and `carry_d2`. A limb carries
/// where its sum reaches the constant `SHIFT`.
pub fn add_no_uint384_check(
    vm: &mut VirtualMachine,
    ids_data: &Vec<(String, HintReference)>,
    ap_tracking: &ApTracking,
    constants: &Vec<(String, Felt252)>,
) -> (r: Result<(), HintError>)
    ensures
        only_wrote(*old(vm), *final(vm)),
        (BigInt3::named(*old(vm), ids_data@, *ap_tracking, "a"@) is None || BigInt3::named(
            *old(vm),
            ids_data@,
            *ap_tracking,
            "b"@,
        ) is None) ==> r is Err && *final(vm) == *old(vm),
        (BigInt3::named(*old(vm), ids_data@, *ap_tracking, "a"@) is Some && BigInt3::named(
            *old(vm),
            ids_data@,
            *ap_tracking,
            "b"@,
        ) is Some && shift_constant(constants@, 0) is None) ==> (r matches Err(
            HintError::MissingConstant(n),
        ) && n@ == "SHIFT"@) && *final(vm) == *old(vm),
        (BigInt3::named(*old(vm), ids_data@, *ap_tracking, "a"@) is Some && BigInt3::named(
            *old(vm),
            ids_data@,
            *ap_tracking,
            "b"@,
        ) is Some && shift_constant(constants@, 0) is Some) ==> {
            let a = BigInt3::named(*old(vm), ids_data@, *ap_tracking, "a"@).unwrap();
            let b = BigInt3::named(*old(vm), ids_data@, *ap_tracking, "b"@).unwrap();
            let shift = shift_constant(constants@, 0).unwrap();
            let c0 = carry_of(a.d0@ + b.d0@, shift@);
            let c1 = carry_of(a.d1@ + b.d1@ + c0, shift@);
            let c2 = carry_of(a.d2@ + b.d2@ + c1, shift@);
            three_writes(
                *old(vm),
                ids_data@,
                *ap_tracking,
                "carry_d0"@,
                Felt252::from_int(c0 as int),
                "carry_d1"@,
                Felt252::from_int(c1 as int),
                "carry_d2"@,
                Felt252::from_int(c2 as int),
                r,
            )
        },
        r is Ok ==> {
            &&& BigInt3::named(*old(vm), ids_data@, *ap_tracking, "a"@) matches Some(a)
            &&& BigInt3::named(*old(vm), ids_data@, *ap_tracking, "b"@) matches Some(b)
            &&& shift_constant(constants@, 0) matches Some(shift)
            &&& ids_addr(*final(vm), ids_data@, *ap_tracking, "carry_d0"@) matches Some(c0)
            &&& final(vm).memory.cell(c0) == Some(
                MaybeRelocatable::Int(Felt252::from_int(carry_of(a.d0@ + b.d0@, shift@) as int)),
            )
            &&& ids_addr(*final(vm), ids_data@, *ap_tracking, "carry_d1"@) matches Some(c1)
            &&& final(vm).memory.cell(c1) == Some(
                MaybeRelocatable::Int(
                    Felt252::from_int(
                        carry_of(a.d1@ + b.d1@ + carry_of(a.d0@ + b.d0@, shift@), shift@) as int,
                    ),
                ),
            )
            &&& ids_addr(*final(vm), ids_data@, *ap_tracking, "carry_d2"@) matches Some(c2)
            &&& final(vm).memory.cell(c2) == Some(
                MaybeRelocatable::Int(
                    Felt252::from_int(
                        carry_of(
                            a.d2@ + b.d2@ + carry_of(
                                a.d1@ + b.d1@ + carry_of(a.d0@ + b.d0@, shift@),
                                shift@,
                            ),
                            shift@,
                        ) as int,
                    ),
                ),
            )
        },
        (BigInt3::named(*old(vm), ids_data@, *ap_tracking, "a"@) is None) ==> (r matches Err(e)
            && limbs_fault(*old(vm), ids_data@, *ap_tracking, "a"@, e)),
        (BigInt3::named(*old(vm), ids_data@, *ap_tracking, "a"@) is Some && BigInt3::named(*old(vm), ids_data@, *ap_tracking, "b"@) is None) ==> (r matches Err(e)
            && limbs_fault(*old(vm), ids_data@, *ap_tracking, "b"@, e)),
{
    let a = match BigInt3::from_var_name("a", vm, ids_data, ap_tracking) {
        Ok(limbs) => limbs,
        Err(e) => {
            return Err(e);
        },
    };
    let b = match BigInt3::from_var_name("b", vm, ids_data, ap_tracking) {
        Ok(limbs) => limbs,
        Err(e) => {
            return Err(e);
        },
    };
    let shift_felt = match find_shift(constants) {
        Ok(shift) => shift,
        Err(e) => {
            return Err(e);
        },
    };
    let shift = BigNum::from_felt(&shift_felt);
    let zero = Felt252::zero();
    let carry_d0 = limb_carry(&a.d0, &b.d0, &zero, &shift);
    let carry_d1 = limb_carry(&a.d1, &b.d1, &carry_d0, &shift);
    let carry_d2 = limb_carry(&a.d2, &b.d2, &carry_d1, &shift);
    write_three(
        "carry_d0",
        carry_d0,
        "carry_d1",
        carry_d1,
        "carry_d2",
        carry_d2,
        vm,
        ids_data,
        ap_tracking,
    )
}

/// Divides the integer in the struct `a` by the one in the expanded struct
/// `div` and writes the limbs of quotient and remainder to the structs
/// `quotient` and `remainder`.
pub fn uint384_unsigned_div_rem_expanded(
    vm: &mut VirtualMachine,
    ids_data: &Vec<(String, HintReference)>,
    ap_tracking: &ApTracking,
) -> (r: Result<(), HintError>)
    ensures
        only_wrote(*old(vm), *final(vm)),
        BigInt3::named(*old(vm), ids_data@, *ap_tracking, "a"@) is None ==> r is Err && *final(vm) == *old(vm),
        match (
            BigInt3::named(*old(vm), ids_data@, *ap_tracking, "a"@),
            Uint384ExpandReduced::named(*old(vm), ids_data@, *ap_tracking, "div"@),
        ) {
            (Some(a), Some(div)) => {
            let num = packed_128(a.d0@, a.d1@, a.d2@);
            let den = packed_128(div.b01@, div.b23@, div.b45@);
            &&& division_written(*old(vm), ids_data@, *ap_tracking, num, den, r)
            &&& den == 0 ==> r == Err::<(), HintError>(HintError::Math(MathError::DividedByZero))
                && *final(vm) == *old(vm)
            &&& r is Ok ==> den > 0 && (BigInt3::named(
                *final(vm),
                ids_data@,
                *ap_tracking,
                "remainder"@,
            ) matches Some(rem) && is_split(num % den, rem)) && (ids_addr(
                *old(vm),
                ids_data@,
                *ap_tracking,
                "quotient"@,
            ) matches Some(q_addr) && BigInt3::at(*final(vm), q_addr) matches Some(quot)
                && is_split(num / den, quot))
            },
            _ => true,
        },
        (BigInt3::named(*old(vm), ids_data@, *ap_tracking, "a"@) is None) ==> (r matches Err(e)
            && limbs_fault(*old(vm), ids_data@, *ap_tracking, "a"@, e)),
{
    let a = match BigInt3::from_var_name("a", vm, ids_data, ap_tracking) {
        Ok(limbs) => limbs.pack(),
        Err(e) => {
            return Err(e);
        },
    };
    let div = match Uint384ExpandReduced::from_var_name("div", vm, ids_data, ap_tracking) {
        Ok(limbs) => limbs.pack(),
        Err(e) => {
            return Err(e);
        },
    };
    proof {
        lemma_packed_not_negative();
    }
    divide_and_write(&a, &div, vm, ids_data, ap_tracking)
}

/// `2^192`, the bound on a square root of an integer of 384 bits.
pub open spec fn two_192() -> int {
    0x1_0000_0000_0000_0000_0000_0000_0000_0000_0000_0000_0000_0000int
}

/// Whether `limbs` hold the integer square root of `whole`, rounded down, which
/// is positive and below `2^192`.
pub open spec fn holds_root(whole: int, limbs: BigInt3) -> bool {
    exists|root: int|
        {
            &&& #[trigger] is_split(root, limbs)
            &&& 0 < root < two_192()
            &&& root * root <= whole
            &&& whole < (root + 1) * (root + 1)
        }
}

/// Writes the integer square root of the integer in the struct `a` to the
/// struct `root`. The root must be positive and below `2^192`.
pub fn uint384_sqrt(
    vm: &mut VirtualMachine,
    ids_data: &Vec<(String, HintReference)>,
    ap_tracking: &ApTracking,
) -> (r: Result<(), HintError>)
    ensures
        only_wrote(*old(vm), *final(vm)),
        BigInt3::named(*old(vm), ids_data@, *ap_tracking, "a"@) is None ==> r is Err && *final(vm) == *old(vm),
        match BigInt3::named(*old(vm), ids_data@, *ap_tracking, "a"@) {
            Some(a) => {
                let root = floor_root(packed_128(a.d0@, a.d1@, a.d2@));
                if root == 0 || root >= two_192() {
                    (r matches Err(HintError::AssertionFailed(message)) && message@
                        == "assert 0 <= root < 2 ** 192"@) && *final(vm) == *old(vm)
                } else {
                    match ids_addr(*old(vm), ids_data@, *ap_tracking, "root"@) {
                        Some(addr) => r == limbs_verdict(*old(vm), addr, limbs_of(root)),
                        None => r matches Err(HintError::UnknownIdentifier(n)) && n@ == "root"@,
                    }
                }
            },
            None => true,
        },
        r is Ok ==> (BigInt3::named(*old(vm), ids_data@, *ap_tracking, "a"@) matches Some(a)
            && BigInt3::named(*final(vm), ids_data@, *ap_tracking, "root"@) matches Some(limbs)
            && holds_root(packed_128(a.d0@, a.d1@, a.d2@), limbs)),
        (BigInt3::named(*old(vm), ids_data@, *ap_tracking, "a"@) is None) ==> (r matches Err(e)
            && limbs_fault(*old(vm), ids_data@, *ap_tracking, "a"@, e)),
{
    let a = match BigInt3::from_var_name("a", vm, ids_data, ap_tracking) {
        Ok(limbs) => limbs.pack(),
        Err(e) => {
            return Err(e);
        },
    };
    proof {
        lemma_packed_not_negative();
    }
    let root = a.sqrt();
    let limit = two_pow_128().mul(&BigNum::from_u128(0x1_0000_0000_0000_0000u128));
    proof {
        lemma_floor_root_unique(a@, root@);
        assert(limit@ == two_192()) by {
            assert(limb_128() * 0x1_0000_0000_0000_0000int == two_192());
        }
    }
    if root.is_zero() || !root.lt_magnitude(&limit) {
        return Err(HintError::AssertionFailed(String::from_str("assert 0 <= root < 2 ** 192")));
    }
    let root_split = BigInt3::split(&root);
    proof {
        Felt252::lemma_from_int_of_view(root_split.d0);
        Felt252::lemma_from_int_of_view(root_split.d1);
        Felt252::lemma_from_int_of_view(root_split.d2);
    }
    let ghost value = root@;
    let ghost whole = a@;
    proof {
        assert(limit@ == two_192()) by {
            assert(limb_128() * 0x1_0000_0000_0000_0000int == two_192());
        }
    }
    match root_split.insert_from_var_name("root", vm, ids_data, ap_tracking) {
        Ok(()) => {
            proof {
                assert(0 < value < two_192());
                assert(value * value <= whole < (value + 1) * (value + 1));
                assert(is_split(value, root_split));
                assert(holds_root(whole, root_split));
            }
            Ok(())
        },
        Err(e) => Err(e),
    }
}

/// Writes to the cell at the allocation pointer whether the integer in the
/// struct `a` is not negative as a signed integer of 384 bits: 1 where its
/// third limb has at most 127 bits, else 0.
pub fn uint384_signed_nn(
    vm: &mut VirtualMachine,
    ids_data: &Vec<(String, HintReference)>,
    ap_tracking: &ApTracking,
) -> (r: Result<(), HintError>)
    ensures
        only_wrote(*old(vm), *final(vm)),
        match ids_addr(*old(vm), ids_data@, *ap_tracking, "a"@) {
            Some(a_addr) => match limb_at(*old(vm), a_addr, 2) {
                Some(d2) => {
                    let flag = MaybeRelocatable::Int(
                        Felt252::from_int(
                            if bit_length(d2@) <= 127 {
                                1int
                            } else {
                                0
                            },
                        ),
                    );
                    r == write_verdict(*old(vm), old(vm).run_context.ap_addr(), flag) && written(
                        *old(vm),
                        *final(vm),
                        old(vm).run_context.ap_addr(),
                        flag,
                    )
                },
                None => (r matches Err(HintError::IdentifierHasNoMember(n, m)) && n@ == "a"@ && m@
                    == "d2"@) && *final(vm) == *old(vm),
            },
            None => (r matches Err(HintError::UnknownIdentifier(n)) && n@ == "a"@) && *final(vm)
                == *old(vm),
        },
{
    proof {
        reveal_strlit("a");
        reveal_strlit("d2");
    }
    let a_addr = match get_relocatable_from_var_name("a", vm, ids_data, ap_tracking) {
        Ok(addr) => addr,
        Err(e) => {
            return Err(e);
        },
    };
    let a_d2 = match read_limb(vm, a_addr, 2, "a", "d2") {
        Ok(d) => d,
        Err(e) => {
            return Err(e);
        },
    };
    let res = if a_d2.bits() <= 127 {
        Felt252::constant(1)
    } else {
        Felt252::constant(0)
    };
    insert_value_into_ap(vm, MaybeRelocatable::Int(res))
}

} // verus!
