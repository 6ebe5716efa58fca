//! An integer in three limbs of memory.

use crate::felt::ops::as_int;
use crate::felt::{prime, Felt252};
use crate::hint_processor::builtin_hint_processor::hint_utils::{
    get_relocatable_from_var_name, ids_addr, lemma_ids_addr_monotone,
};
use crate::hint_processor::builtin_hint_processor::math_utils::{
    lemma_cell_verdict_kept, only_wrote,
};
use crate::hint_processor::hint_processor_definition::HintReference;
use crate::serde::deserialize_program::ApTracking;
use crate::types::bignum::BigNum;
use crate::types::relocatable::{MaybeRelocatable, Relocatable};
use crate::vm::errors::hint_errors::HintError;
use crate::vm::vm_core::VirtualMachine;
use crate::vm::vm_memory::memory::Memory;
use crate::vm::vm_memory::memory_segments::nth_after;
use vstd::prelude::*;
use vstd::string::StringExecFns;

verus! {

/// `2^128`, the weight of the second limb of an unsigned integer of 384 bits.
pub open spec fn limb_128() -> int {
    0x1_0000_0000_0000_0000_0000_0000_0000_0000int
}

/// `2^86`, the weight of the second limb of a signed integer in three limbs.
pub open spec fn limb_86() -> int {
    0x40_0000_0000_0000_0000_0000int
}

/// Three limbs of an integer, the least significant first.
#[derive(Debug, Clone, Copy, PartialEq, Eq, Structural)]
pub struct BigInt3 {
    pub d0: Felt252,
    pub d1: Felt252,
    pub d2: Felt252,
}

/// The field element in the cell `k` cells after `addr`.
pub open spec fn limb_at(vm: VirtualMachine, addr: Relocatable, k: int) -> Option<Felt252> {
    if addr.offset + k > usize::MAX {
        None
    } else {
        match vm.memory.cell(nth_after(addr, k)) {
            Some(MaybeRelocatable::Int(num)) => Some(num),
            _ => None,
        }
    }
}

/// The unsigned integer of three limbs of 128 bits.
pub open spec fn packed_128(d0: nat, d1: nat, d2: nat) -> int {
    d0 + d1 * limb_128() + d2 * limb_128() * limb_128()
}

/// The signed integer of three limbs of 86 bits, each read as a signed integer.
pub open spec fn packed_86(d0: nat, d1: nat, d2: nat) -> int {
    as_int(d0) + as_int(d1) * limb_86() + as_int(d2) * limb_86() * limb_86()
}

/// Reads the field element in the cell `k` cells after `addr`, the member
/// `member` of the struct `name`.
pub fn read_limb(vm: &VirtualMachine, addr: Relocatable, k: usize, name: &str, member: &str) -> (r:
    Result<Felt252, HintError>)
    ensures
        match limb_at(*vm, addr, k as int) {
            Some(num) => r == Ok::<Felt252, HintError>(num),
            None => r matches Err(HintError::IdentifierHasNoMember(n, m)) && n@ == name@ && m@
                == member@,
        },
{
    let cell = match addr.add_usize(k) {
        Ok(cell) => cell,
        Err(_) => {
            return Err(
                HintError::IdentifierHasNoMember(String::from_str(name), String::from_str(member)),
            );
        },
    };
    match vm.get_integer(cell) {
        Ok(num) => Ok(num),
        Err(_) => Err(
            HintError::IdentifierHasNoMember(String::from_str(name), String::from_str(member)),
        ),
    }
}

/// `2^128` as an integer of any size.
pub fn two_pow_128() -> (r: BigNum)
    ensures
        r@ == limb_128(),
{
    let low = BigNum::from_u128(0x8000_0000_0000_0000_0000_0000_0000_0000u128);
    low.add(&low)
}

/// `2^86` as an integer of any size.
pub fn two_pow_86() -> (r: BigNum)
    ensures
        r@ == limb_86(),
{
    BigNum::from_u128(0x40_0000_0000_0000_0000_0000u128)
}

/// What writing the three limbs to the three cells from `addr` on comes to:
/// the error of the first cell that memory refuses or that lies beyond the
/// machine words, else nothing.
pub open spec fn limbs_verdict(vm: VirtualMachine, addr: Relocatable, limbs: BigInt3) -> Result<
    (),
    HintError,
> {
    match vm.memory.insert_verdict(addr, MaybeRelocatable::Int(limbs.d0)) {
        Err(e) => Err(HintError::Memory(e)),
        Ok(()) => match addr.moved_forward(1) {
            Err(e) => Err(HintError::Math(e)),
            Ok(cell1) => match vm.memory.insert_verdict(cell1, MaybeRelocatable::Int(limbs.d1)) {
                Err(e) => Err(HintError::Memory(e)),
                Ok(()) => match addr.moved_forward(2) {
                    Err(e) => Err(HintError::Math(e)),
                    Ok(cell2) => match vm.memory.insert_verdict(
                        cell2,
                        MaybeRelocatable::Int(limbs.d2),
                    ) {
                        Err(e) => Err(HintError::Memory(e)),
                        Ok(()) => Ok(()),
                    },
                },
            },
        },
    }
}

/// Whether the cell at `other` is none of the three cells from `addr` on.
pub open spec fn beside_limbs(addr: Relocatable, other: Relocatable) -> bool {
    other.segment_index != addr.segment_index || other.offset < addr.offset || other.offset
        > addr.offset + 2
}

/// Whether the three cells from `a` on and the three cells from `b` on are
/// six cells.
pub open spec fn limbs_apart(a: Relocatable, b: Relocatable) -> bool {
    a.segment_index != b.segment_index || a.offset + 2 < b.offset || b.offset + 2 < a.offset
}

/// Whether memory says of a write to any cell beside the three from `addr` on
/// what it said before.
pub open spec fn same_beside(before: Memory, after: Memory, addr: Relocatable) -> bool {
    forall|other: Relocatable, value: MaybeRelocatable|
        beside_limbs(addr, other) ==> #[trigger] after.insert_verdict(other, value)
            == before.insert_verdict(other, value)
}

/// A write to one cell leaves what memory says of a write to any other cell.
pub proof fn lemma_other_cells(
    before: Memory,
    after: Memory,
    key: Relocatable,
    val: MaybeRelocatable,
)
    requires
        before.insert_effect(after, key, val),
    ensures
        forall|other: Relocatable, value: MaybeRelocatable|
            other != key ==> #[trigger] after.insert_verdict(other, value)
                == before.insert_verdict(other, value),
{
    assert forall|other: Relocatable, value: MaybeRelocatable| other != key implies #[trigger] after.insert_verdict(
        other,
        value,
    ) == before.insert_verdict(other, value) by {
        lemma_cell_verdict_kept(before, after, key, val, other, value);
    }
}

/// Limbs written apart from three cells that were written are taken as before.
pub proof fn lemma_limbs_apart(
    before: VirtualMachine,
    after: VirtualMachine,
    at: Relocatable,
    addr: Relocatable,
    limbs: BigInt3,
)
    requires
        same_beside(before.memory, after.memory, at),
        limbs_apart(at, addr),
    ensures
        limbs_verdict(after, addr, limbs) == limbs_verdict(before, addr, limbs),
{
    assert(beside_limbs(at, addr));
    assert(after.memory.insert_verdict(addr, MaybeRelocatable::Int(limbs.d0))
        == before.memory.insert_verdict(addr, MaybeRelocatable::Int(limbs.d0)));
    if addr.moved_forward(1) is Ok {
        let cell1 = addr.moved_forward(1).unwrap();
        assert(beside_limbs(at, cell1));
        assert(after.memory.insert_verdict(cell1, MaybeRelocatable::Int(limbs.d1))
            == before.memory.insert_verdict(cell1, MaybeRelocatable::Int(limbs.d1)));
    }
    if addr.moved_forward(2) is Ok {
        let cell2 = addr.moved_forward(2).unwrap();
        assert(beside_limbs(at, cell2));
        assert(after.memory.insert_verdict(cell2, MaybeRelocatable::Int(limbs.d2))
            == before.memory.insert_verdict(cell2, MaybeRelocatable::Int(limbs.d2)));
    }
}

/// Whether `e` is the error of reading the three limbs of the struct `name`:
/// of a name that stands for no cell, that the identifier is unknown; else
/// that the struct lacks the first of `d0`, `d1` and `d2` whose cell holds no
/// field element.
pub open spec fn limbs_fault(
    vm: VirtualMachine,
    ids_data: Seq<(String, HintReference)>,
    ap_tracking: ApTracking,
    name: Seq<char>,
    e: HintError,
) -> bool {
    match ids_addr(vm, ids_data, ap_tracking, name) {
        None => e matches HintError::UnknownIdentifier(n) && n@ == name,
        Some(addr) => missing_limb(vm, addr, name, e),
    }
}

/// Whether `e` says that the struct `name` at `addr` lacks the first of its
/// limbs whose cell holds no field element.
pub open spec fn missing_limb(
    vm: VirtualMachine,
    addr: Relocatable,
    name: Seq<char>,
    e: HintError,
) -> bool {
    e matches HintError::IdentifierHasNoMember(n, m) && n@ == name && m@ == (if limb_at(
        vm,
        addr,
        0,
    ) is None {
        "d0"@
    } else if limb_at(vm, addr, 1) is None {
        "d1"@
    } else {
        "d2"@
    })
}

impl BigInt3 {
    /// The three limbs in the three cells from `addr` on.
    pub open spec fn at(vm: VirtualMachine, addr: Relocatable) -> Option<BigInt3> {
        match (limb_at(vm, addr, 0), limb_at(vm, addr, 1), limb_at(vm, addr, 2)) {
            (Some(d0), Some(d1), Some(d2)) => Some(BigInt3 { d0, d1, d2 }),
            _ => None,
        }
    }

    /// The three limbs of the struct `name`.
    pub open spec fn named(
        vm: VirtualMachine,
        ids_data: Seq<(String, HintReference)>,
        ap_tracking: ApTracking,
        name: Seq<char>,
    ) -> Option<BigInt3> {
        match ids_addr(vm, ids_data, ap_tracking, name) {
            Some(addr) => BigInt3::at(vm, addr),
            None => None,
        }
    }

    /// Reads the three limbs of the struct `name` from the three cells from
    /// `addr` on.
    pub fn from_base_addr(addr: Relocatable, name: &str, vm: &VirtualMachine) -> (r: Result<
        BigInt3,
        HintError,
    >)
        ensures
            match BigInt3::at(*vm, addr) {
                Some(limbs) => r == Ok::<BigInt3, HintError>(limbs),
                None => r matches Err(HintError::IdentifierHasNoMember(n, _)) && n@ == name@,
            },
            BigInt3::at(*vm, addr) is None ==> (r matches Err(e) && missing_limb(
                *vm,
                addr,
                name@,
                e,
            )),
    {
        proof {
            reveal_strlit("d0");
            reveal_strlit("d1");
            reveal_strlit("d2");
        }
        let d0 = match read_limb(vm, addr, 0, name, "d0") {
            Ok(d) => d,
            Err(e) => {
                return Err(e);
            },
        };
        let d1 = match read_limb(vm, addr, 1, name, "d1") {
            Ok(d) => d,
            Err(e) => {
                return Err(e);
            },
        };
        let d2 = match read_limb(vm, addr, 2, name, "d2") {
            Ok(d) => d,
            Err(e) => {
                return Err(e);
            },
        };
        Ok(BigInt3 { d0, d1, d2 })
    }

    /// Reads the three limbs of the struct `name`.
    pub fn from_var_name(
        name: &str,
        vm: &VirtualMachine,
        ids_data: &Vec<(String, HintReference)>,
        ap_tracking: &ApTracking,
    ) -> (r: Result<BigInt3, HintError>)
        ensures
            match BigInt3::named(*vm, ids_data@, *ap_tracking, name@) {
                Some(limbs) => r == Ok::<BigInt3, HintError>(limbs),
                None => r matches Err(e) && limbs_fault(*vm, ids_data@, *ap_tracking, name@, e),
            },
    {
        let base_addr = match get_relocatable_from_var_name(name, vm, ids_data, ap_tracking) {
            Ok(addr) => addr,
            Err(e) => {
                return Err(e);
            },
        };
        BigInt3::from_base_addr(base_addr, name, vm)
    }

    /// The unsigned integer of the limbs, 128 bits each.
    pub fn pack(&self) -> (r: BigNum)
        ensures
            r@ == packed_128(self.d0@, self.d1@, self.d2@),
    {
        let shift = two_pow_128();
        let d0 = BigNum::from_felt(&self.d0);
        let d1 = BigNum::from_felt(&self.d1).mul(&shift);
        let d2 = BigNum::from_felt(&self.d2).mul(&shift).mul(&shift);
        d0.add(&d1).add(&d2)
    }

    /// The three limbs of 128 bits of `num`, which must not be negative; bits
    /// beyond the third limb are dropped.
    pub fn split(num: &BigNum) -> (r: BigInt3)
        requires
            num@ >= 0,
        ensures
            r.d0@ == num@ % limb_128(),
            r.d1@ == (num@ / limb_128()) % limb_128(),
            r.d2@ == ((num@ / limb_128()) / limb_128()) % limb_128(),
    {
        let shift = two_pow_128();
        let (q0, r0) = num.div_mod_floor(&shift);
        let (q1, r1) = q0.div_mod_floor(&shift);
        let (_, r2) = q1.div_mod_floor(&shift);
        proof {
            let m = limb_128();
            vstd::arithmetic::div_mod::lemma_fundamental_div_mod_converse(num@, m, q0@, r0@);
            vstd::arithmetic::div_mod::lemma_fundamental_div_mod_converse(q0@, m, q1@, r1@);
            vstd::arithmetic::div_mod::lemma_fundamental_div_mod_converse(
                q1@,
                m,
                (q1@ - r2@) / m,
                r2@,
            );
            vstd::arithmetic::div_mod::lemma_small_mod(r0@ as nat, prime());
            vstd::arithmetic::div_mod::lemma_small_mod(r1@ as nat, prime());
            vstd::arithmetic::div_mod::lemma_small_mod(r2@ as nat, prime());
        }
        BigInt3 { d0: r0.to_felt(), d1: r1.to_felt(), d2: r2.to_felt() }
    }

    /// Writes the three limbs to the three cells of the struct `var_name`.
    pub fn insert_from_var_name(
        &self,
        var_name: &str,
        vm: &mut VirtualMachine,
        ids_data: &Vec<(String, HintReference)>,
        ap_tracking: &ApTracking,
    ) -> (r: Result<(), HintError>)
        ensures
            only_wrote(*old(vm), *final(vm)),
            ids_addr(*old(vm), ids_data@, *ap_tracking, var_name@) is None ==> r is Err && *final(vm) == *old(vm),
            match ids_addr(*old(vm), ids_data@, *ap_tracking, var_name@) {
                Some(addr) => r == limbs_verdict(*old(vm), addr, *self) && same_beside(
                    old(vm).memory,
                    final(vm).memory,
                    addr,
                ),
                None => r matches Err(HintError::UnknownIdentifier(n)) && n@ == var_name@,
            },
            r is Ok ==> BigInt3::named(*final(vm), ids_data@, *ap_tracking, var_name@) == Some(
                *self,
            ),
    {
        let addr = match get_relocatable_from_var_name(var_name, vm, ids_data, ap_tracking) {
            Ok(addr) => addr,
            Err(e) => {
                return Err(e);
            },
        };
        match vm.insert_value(addr, MaybeRelocatable::Int(self.d0)) {
            Ok(()) => {},
            Err(e) => {
                return Err(HintError::Memory(e));
            },
        }
        let cell1 = match addr.add_usize(1) {
            Ok(cell) => cell,
            Err(e) => {
                return Err(HintError::Math(e));
            },
        };
        let ghost first = vm.memory;
        proof {
            lemma_other_cells(old(vm).memory, first, addr, MaybeRelocatable::Int(self.d0));
            lemma_cell_verdict_kept(
                old(vm).memory,
                first,
                addr,
                MaybeRelocatable::Int(self.d0),
                cell1,
                MaybeRelocatable::Int(self.d1),
            );
        }
        match vm.insert_value(cell1, MaybeRelocatable::Int(self.d1)) {
            Ok(()) => {},
            Err(e) => {
                return Err(HintError::Memory(e));
            },
        }
        let cell2 = match addr.add_usize(2) {
            Ok(cell) => cell,
            Err(e) => {
                return Err(HintError::Math(e));
            },
        };
        let ghost second = vm.memory;
        proof {
            lemma_other_cells(first, second, cell1, MaybeRelocatable::Int(self.d1));
            lemma_cell_verdict_kept(
                old(vm).memory,
                first,
                addr,
                MaybeRelocatable::Int(self.d0),
                cell2,
                MaybeRelocatable::Int(self.d2),
            );
            lemma_cell_verdict_kept(
                first,
                second,
                cell1,
                MaybeRelocatable::Int(self.d1),
                cell2,
                MaybeRelocatable::Int(self.d2),
            );
        }
        match vm.insert_value(cell2, MaybeRelocatable::Int(self.d2)) {
            Ok(()) => {},
            Err(e) => {
                return Err(HintError::Memory(e));
            },
        }
        proof {
            lemma_other_cells(second, vm.memory, cell2, MaybeRelocatable::Int(self.d2));
            lemma_ids_addr_monotone(*old(vm), *vm, ids_data@, *ap_tracking, var_name@);
            assert(nth_after(addr, 0) == addr);
            assert(vm.memory.cell(addr) == Some(MaybeRelocatable::Int(self.d0)));
            assert(vm.memory.cell(nth_after(addr, 1)) == Some(MaybeRelocatable::Int(self.d1)));
            assert(vm.memory.cell(nth_after(addr, 2)) == Some(MaybeRelocatable::Int(self.d2)));
        }
        Ok(())
    }
}

/// The signed integer of three limbs of 86 bits, each read as a signed integer.
pub fn bigint3_pack(num: &BigInt3) -> (r: BigNum)
    ensures
        r@ == packed_86(num.d0@, num.d1@, num.d2@),
{
    let shift = two_pow_86();
    let d0 = BigNum::from_felt_signed(&num.d0);
    let d1 = BigNum::from_felt_signed(&num.d1).mul(&shift);
    let d2 = BigNum::from_felt_signed(&num.d2).mul(&shift).mul(&shift);
    d0.add(&d1).add(&d2)
}

} // verus!
