//! The hints of the common mathematics library.

use crate::felt::big::big_div_rem;
use crate::felt::bytes::prime_be_bytes;
use crate::felt::ops::as_int;
use crate::felt::{field_add, field_sub, prime, Felt252, PRIME_STR};
use crate::hint_processor::builtin_hint_processor::hint_utils::{
    get_integer_from_var_name, get_maybe_relocatable_from_var_name, get_ptr_from_var_name,
    ids_addr, ids_integer, ids_ptr, ids_value, insert_value_from_var_name, insert_value_into_ap,
    integer_fault, lemma_ids_addr_monotone, lemma_write_after, write_verdict,
    write_verdict_after, written,
};
use crate::hint_processor::hint_processor_definition::HintReference;
use crate::serde::deserialize_program::ApTracking;
use crate::types::errors::math_errors::MathError;
use crate::types::errors::memory_errors::MemoryError;
use crate::types::exec_scope::{ExecutionScopes, ScopeValue};
use crate::types::relocatable::{MaybeRelocatable, Relocatable};
use crate::vm::errors::hint_errors::HintError;
use crate::vm::errors::vm_errors::VirtualMachineError;
use crate::vm::vm_core::VirtualMachine;
use crate::vm::vm_memory::memory::Memory;
use vstd::arithmetic::power::pow;
use vstd::prelude::*;
use vstd::string::StringExecFns;

verus! {

/// The bound of the range-check builtin of the machine: `None` where it has no
/// such builtin, `Some(None)` where the builtin has no bound.
pub open spec fn rc_bound(vm: VirtualMachine) -> Option<Option<Felt252>> {
    match vm.range_check_builtin(0) {
        Some(b) => Some(b._bound),
        None => None,
    }
}

/// The bound of the range-check builtin of the machine.
pub fn range_check_bound(vm: &VirtualMachine) -> (r: Result<Option<Felt252>, HintError>)
    ensures
        match rc_bound(*vm) {
            Some(bound) => r == Ok::<Option<Felt252>, HintError>(bound),
            None => r == Err::<Option<Felt252>, HintError>(
                HintError::Internal(VirtualMachineError::NoRangeCheckBuiltin),
            ),
        },
{
    match vm.get_range_check_builtin() {
        Ok(builtin) => Ok(builtin._bound),
        Err(e) => Err(HintError::Internal(e)),
    }
}

/// The flag that `is_nn` writes: 1 where `a` reaches the bound, else 0.
pub open spec fn is_nn_flag(a: Felt252, bound: Option<Felt252>) -> int {
    match bound {
        Some(b) => if a@ >= b@ {
            1
        } else {
            0
        },
        None => 0,
    }
}

/// Writes to the cell at the allocation pointer whether `a` is outside the
/// range of the range-check builtin: 0 where `a` is below the bound, else 1.
pub fn is_nn(
    vm: &mut VirtualMachine,
    ids_data: &Vec<(String, HintReference)>,
    ap_tracking: &ApTracking,
) -> (r: Result<(), HintError>)
    ensures
        match (ids_integer(*old(vm), ids_data@, *ap_tracking, "a"@), rc_bound(*old(vm))) {
            (Some(a), Some(bound)) => {
                let flag = MaybeRelocatable::Int(Felt252::from_int(is_nn_flag(a, bound)));
                r == write_verdict(*old(vm), old(vm).run_context.ap_addr(), flag) && written(
                    *old(vm),
                    *final(vm),
                    old(vm).run_context.ap_addr(),
                    flag,
                )
            },
            _ => r is Err && *final(vm) == *old(vm),
        },
        ids_integer(*old(vm), ids_data@, *ap_tracking, "a"@) is None ==> (r matches Err(e)
            && integer_fault(*old(vm), ids_data@, *ap_tracking, "a"@, e)),
        (ids_integer(*old(vm), ids_data@, *ap_tracking, "a"@) is Some && rc_bound(*old(vm)) is None) ==> r == Err::<(), HintError>(
            HintError::Internal(VirtualMachineError::NoRangeCheckBuiltin),
        ),
{
    let a = match get_integer_from_var_name("a", vm, ids_data, ap_tracking) {
        Ok(a) => a,
        Err(e) => {
            return Err(e);
        },
    };
    let bound = match range_check_bound(vm) {
        Ok(bound) => bound,
        Err(e) => {
            return Err(e);
        },
    };
    let value = match bound {
        Some(b) => if a.ge(&b) {
            Felt252::constant(1)
        } else {
            Felt252::constant(0)
        },
        None => Felt252::constant(0),
    };
    insert_value_into_ap(vm, MaybeRelocatable::Int(value))
}

/// The flag that `is_nn_out_of_range` writes: 0 where `-a - 1` is below the
/// bound, else 1.
pub open spec fn is_nn_out_of_range_flag(a: Felt252, bound: Option<Felt252>) -> int {
    match bound {
        Some(b) => if field_sub(0, field_add(a@, 1)) < b@ {
            0
        } else {
            1
        },
        None => 0,
    }
}

/// Writes to the cell at the allocation pointer whether `-a - 1` is outside the
/// range of the range-check builtin.
pub fn is_nn_out_of_range(
    vm: &mut VirtualMachine,
    ids_data: &Vec<(String, HintReference)>,
    ap_tracking: &ApTracking,
) -> (r: Result<(), HintError>)
    ensures
        match (ids_integer(*old(vm), ids_data@, *ap_tracking, "a"@), rc_bound(*old(vm))) {
            (Some(a), Some(bound)) => {
                let flag = MaybeRelocatable::Int(
                    Felt252::from_int(is_nn_out_of_range_flag(a, bound)),
                );
                r == write_verdict(*old(vm), old(vm).run_context.ap_addr(), flag) && written(
                    *old(vm),
                    *final(vm),
                    old(vm).run_context.ap_addr(),
                    flag,
                )
            },
            _ => r is Err && *final(vm) == *old(vm),
        },
        ids_integer(*old(vm), ids_data@, *ap_tracking, "a"@) is None ==> (r matches Err(e)
            && integer_fault(*old(vm), ids_data@, *ap_tracking, "a"@, e)),
        (ids_integer(*old(vm), ids_data@, *ap_tracking, "a"@) is Some && rc_bound(*old(vm)) is None) ==> r == Err::<(), HintError>(
            HintError::Internal(VirtualMachineError::NoRangeCheckBuiltin),
        ),
{
    let a = match get_integer_from_var_name("a", vm, ids_data, ap_tracking) {
        Ok(a) => a,
        Err(e) => {
            return Err(e);
        },
    };
    let bound = match range_check_bound(vm) {
        Ok(bound) => bound,
        Err(e) => {
            return Err(e);
        },
    };
    let value = match bound {
        Some(b) => if Felt252::zero().sub(&a.add_usize(1)).lt(&b) {
            Felt252::constant(0)
        } else {
            Felt252::constant(1)
        },
        None => Felt252::constant(0),
    };
    insert_value_into_ap(vm, MaybeRelocatable::Int(value))
}

/// The prime divided by `bound`, rounded down, as a field element.
pub fn div_prime_by_bound(bound: Felt252) -> (r: Result<Felt252, VirtualMachineError>)
    ensures
        bound@ == 0 ==> r == Err::<Felt252, VirtualMachineError>(
            VirtualMachineError::Math(MathError::DividedByZero),
        ),
        bound@ != 0 ==> (r matches Ok(q) && q@ == (prime() / bound@) % prime()),
{
    if bound.is_zero() {
        return Err(VirtualMachineError::Math(MathError::DividedByZero));
    }
    let (q, _) = big_div_rem(prime_be_bytes().as_slice(), bound.to_be_bytes().as_slice());
    Ok(Felt252::from_bytes_be(q.as_slice()))
}

/// Whether a hint left everything but memory as it was, and memory with all
/// it held.
pub open spec fn only_wrote(before: VirtualMachine, after: VirtualMachine) -> bool {
    &&& before.memory.extended_by(after.memory)
    &&& after.run_context == before.run_context
    &&& after.builtin_runners == before.builtin_runners
    &&& after.segments == before.segments
    &&& after.trace == before.trace
    &&& after.current_step == before.current_step
}

/// The constant called `name`, the first of that name.
pub open spec fn constant_named(constants: Seq<(String, Felt252)>, name: Seq<char>, from: int) -> Option<
    Felt252,
>
    decreases constants.len() - from,
{
    if from < 0 || from >= constants.len() {
        None
    } else if constants[from].0@ == name {
        Some(constants[from].1)
    } else {
        constant_named(constants, name, from + 1)
    }
}

/// The constant called `name`.
pub fn get_constant(constants: &Vec<(String, Felt252)>, name: &str) -> (r: Result<
    Felt252,
    HintError,
>)
    ensures
        match constant_named(constants@, name@, 0) {
            Some(value) => r == Ok::<Felt252, HintError>(value),
            None => r matches Err(HintError::MissingConstant(n)) && n@ == name@,
        },
{
    let wanted = String::from_str(name);
    let mut i: usize = 0;
    while i < constants.len()
        invariant
            i <= constants@.len(),
            wanted@ == name@,
            constant_named(constants@, name@, 0) == constant_named(constants@, name@, i as int),
        decreases constants@.len() - i,
    {
        if constants[i].0 == wanted {
            return Ok(constants[i].1);
        }
        i = i + 1;
    }
    Err(HintError::MissingConstant(String::from_str(name)))
}

/// Whether the arc `a` comes before the arc `b`: by length, then by number.
pub open spec fn arc_before(a: (Felt252, i32), b: (Felt252, i32)) -> bool {
    a.0@ < b.0@ || (a.0@ == b.0@ && a.1 <= b.1)
}

/// Whether the arc `a` comes before the arc `b`.
fn arc_le(a: &(Felt252, i32), b: &(Felt252, i32)) -> (r: bool)
    ensures
        r == arc_before(*a, *b),
{
    proof {
        if a.0@ == b.0@ {
            Felt252::lemma_view_injective(a.0, b.0);
        }
    }
    a.0.lt(&b.0) || (a.0 == b.0 && a.1 <= b.1)
}

/// Whether `(a, b, c)` are the arcs `(x, y, z)` in some order.
pub open spec fn same_arcs(
    a: (Felt252, i32),
    b: (Felt252, i32),
    c: (Felt252, i32),
    x: (Felt252, i32),
    y: (Felt252, i32),
    z: (Felt252, i32),
) -> bool {
    (a == x && b == y && c == z) || (a == x && b == z && c == y) || (a == y && b == x && c == z)
        || (a == y && b == z && c == x) || (a == z && b == x && c == y) || (a == z && b == y
        && c == x)
}

/// Sorts three arcs by length, then by number.
pub fn sort_arcs(x: (Felt252, i32), y: (Felt252, i32), z: (Felt252, i32)) -> (r: (
    (Felt252, i32),
    (Felt252, i32),
    (Felt252, i32),
))
    ensures
        arc_before(r.0, r.1),
        arc_before(r.1, r.2),
        same_arcs(r.0, r.1, r.2, x, y, z),
{
    x.0.note_canonical();
    y.0.note_canonical();
    z.0.note_canonical();
    let (a, b) = if arc_le(&x, &y) {
        (x, y)
    } else {
        (y, x)
    };
    let (b, c) = if arc_le(&b, &z) {
        (b, z)
    } else {
        (z, b)
    };
    let (a, b) = if arc_le(&a, &b) {
        (a, b)
    } else {
        (b, a)
    };
    (a, b, c)
}

/// Whether `r` is what writing `value` to the cell called `name` comes to.
pub open spec fn write_by_name(
    vm: VirtualMachine,
    ids_data: Seq<(String, HintReference)>,
    ap_tracking: ApTracking,
    name: Seq<char>,
    value: Felt252,
    r: Result<(), HintError>,
) -> bool {
    match ids_addr(vm, ids_data, ap_tracking, name) {
        Some(addr) => r == write_verdict(vm, addr, MaybeRelocatable::Int(value)),
        None => r matches Err(HintError::UnknownIdentifier(n)) && n@ == name,
    }
}

/// Whether writing `value` to the cell called `name` takes the machine from
/// `before` to `after` and comes to `r`: a name that stands for no cell is
/// unknown, and nothing is written.
pub open spec fn felt_written(
    before: VirtualMachine,
    after: VirtualMachine,
    ids_data: Seq<(String, HintReference)>,
    ap_tracking: ApTracking,
    name: Seq<char>,
    value: Felt252,
    r: Result<(), HintError>,
) -> bool {
    match ids_addr(before, ids_data, ap_tracking, name) {
        Some(addr) => r == write_verdict(before, addr, MaybeRelocatable::Int(value)) && written(
            before,
            after,
            addr,
            MaybeRelocatable::Int(value),
        ),
        None => (r matches Err(HintError::UnknownIdentifier(n)) && n@ == name) && after == before,
    }
}

/// Whether `r` is what writing `first` to the cell called `a` and then
/// `second` to the cell called `b` comes to: the error of the first write that
/// fails, else nothing. Where the second name resolves before the first write
/// it resolves to the same cell after it; else it is resolved in the machine
/// that the first write leaves.
pub open spec fn two_writes(
    vm: VirtualMachine,
    ids_data: Seq<(String, HintReference)>,
    ap_tracking: ApTracking,
    a: Seq<char>,
    first: Felt252,
    b: Seq<char>,
    second: Felt252,
    r: Result<(), HintError>,
) -> bool {
    match ids_addr(vm, ids_data, ap_tracking, a) {
        None => r matches Err(HintError::UnknownIdentifier(n)) && n@ == a,
        Some(at) => match write_verdict(vm, at, MaybeRelocatable::Int(first)) {
            Err(e) => r == Err::<(), HintError>(e),
            Ok(()) => match ids_addr(vm, ids_data, ap_tracking, b) {
                Some(addr) => r == write_verdict_after(
                    vm,
                    at,
                    MaybeRelocatable::Int(first),
                    addr,
                    MaybeRelocatable::Int(second),
                ),
                None => exists|middle: VirtualMachine|
                    #[trigger] written(vm, middle, at, MaybeRelocatable::Int(first))
                        && write_by_name(middle, ids_data, ap_tracking, b, second, r),
            },
        },
    }
}

/// Whether `r` is what writing `first`, `second` and `third` to the cells
/// called `a`, `b` and `c`, in this order, comes to: the error of the first
/// write that fails, else nothing. A name that resolves before the first
/// write resolves to the same cell later; one that does not is resolved in
/// the machine that the writes before it leave.
pub open spec fn three_writes(
    vm: VirtualMachine,
    ids_data: Seq<(String, HintReference)>,
    ap_tracking: ApTracking,
    a: Seq<char>,
    first: Felt252,
    b: Seq<char>,
    second: Felt252,
    c: Seq<char>,
    third: Felt252,
    r: Result<(), HintError>,
) -> bool {
    match ids_addr(vm, ids_data, ap_tracking, a) {
        None => r matches Err(HintError::UnknownIdentifier(n)) && n@ == a,
        Some(at) => match write_verdict(vm, at, MaybeRelocatable::Int(first)) {
            Err(e) => r == Err::<(), HintError>(e),
            Ok(()) => match ids_addr(vm, ids_data, ap_tracking, b) {
                None => exists|middle: VirtualMachine|
                    #[trigger] written(vm, middle, at, MaybeRelocatable::Int(first))
                        && two_writes(middle, ids_data, ap_tracking, b, second, c, third, r),
                Some(bt) => match write_verdict_after(
                    vm,
                    at,
                    MaybeRelocatable::Int(first),
                    bt,
                    MaybeRelocatable::Int(second),
                ) {
                    Err(e) => r == Err::<(), HintError>(e),
                    Ok(()) => match ids_addr(vm, ids_data, ap_tracking, c) {
                        None => exists|middle: VirtualMachine, last: VirtualMachine|
                            #![trigger written(middle, last, bt, MaybeRelocatable::Int(second))]
                            written(vm, middle, at, MaybeRelocatable::Int(first)) && written(
                                middle,
                                last,
                                bt,
                                MaybeRelocatable::Int(second),
                            ) && write_by_name(last, ids_data, ap_tracking, c, third, r),
                        Some(ct) => r == (if ct == bt {
                            if third == second {
                                Ok::<(), HintError>(())
                            } else {
                                Err::<(), HintError>(
                                    HintError::Memory(
                                        MemoryError::InconsistentMemory(
                                            ct,
                                            MaybeRelocatable::Int(second),
                                            MaybeRelocatable::Int(third),
                                        ),
                                    ),
                                )
                            }
                        } else {
                            write_verdict_after(
                                vm,
                                at,
                                MaybeRelocatable::Int(first),
                                ct,
                                MaybeRelocatable::Int(third),
                            )
                        }),
                    },
                },
            },
        },
    }
}

/// A second write by name after an accepted first one comes to
/// `write_verdict_after`.
pub proof fn lemma_second_write(
    before: VirtualMachine,
    middle: VirtualMachine,
    ids_data: Seq<(String, HintReference)>,
    ap_tracking: ApTracking,
    a: Seq<char>,
    first: Felt252,
    b: Seq<char>,
    second: Felt252,
)
    requires
        ids_addr(before, ids_data, ap_tracking, a) is Some,
        written(
            before,
            middle,
            ids_addr(before, ids_data, ap_tracking, a).unwrap(),
            MaybeRelocatable::Int(first),
        ),
        write_verdict(
            before,
            ids_addr(before, ids_data, ap_tracking, a).unwrap(),
            MaybeRelocatable::Int(first),
        ) is Ok,
    ensures
        ids_addr(before, ids_data, ap_tracking, b) matches Some(addr) ==> ids_addr(
            middle,
            ids_data,
            ap_tracking,
            b,
        ) == Some(addr) && write_verdict(middle, addr, MaybeRelocatable::Int(second))
            == write_verdict_after(
            before,
            ids_addr(before, ids_data, ap_tracking, a).unwrap(),
            MaybeRelocatable::Int(first),
            addr,
            MaybeRelocatable::Int(second),
        ),
        before.memory.extended_by(middle.memory),
{
    let at = ids_addr(before, ids_data, ap_tracking, a).unwrap();
    assert(before.memory.extended_by(middle.memory));
    if ids_addr(before, ids_data, ap_tracking, b) is Some {
        let addr = ids_addr(before, ids_data, ap_tracking, b).unwrap();
        lemma_ids_addr_monotone(before, middle, ids_data, ap_tracking, b);
        lemma_write_after(
            before,
            middle,
            at,
            MaybeRelocatable::Int(first),
            addr,
            MaybeRelocatable::Int(second),
        );
    }
}

/// Writes the field element `value` to the cell that `var_name` stands for.
pub fn write_felt(
    var_name: &str,
    value: Felt252,
    vm: &mut VirtualMachine,
    ids_data: &Vec<(String, HintReference)>,
    ap_tracking: &ApTracking,
) -> (r: Result<(), HintError>)
    ensures
        only_wrote(*old(vm), *final(vm)),
        r is Ok ==> (ids_addr(*old(vm), ids_data@, *ap_tracking, var_name@) matches Some(addr)
            && final(vm).memory.cell(addr) == Some(MaybeRelocatable::Int(value)) && ids_addr(
            *final(vm),
            ids_data@,
            *ap_tracking,
            var_name@,
        ) == Some(addr)),
        match ids_addr(*old(vm), ids_data@, *ap_tracking, var_name@) {
            Some(addr) => r == write_verdict(*old(vm), addr, MaybeRelocatable::Int(value))
                && written(*old(vm), *final(vm), addr, MaybeRelocatable::Int(value)),
            None => (r matches Err(HintError::UnknownIdentifier(n)) && n@ == var_name@)
                && *final(vm) == *old(vm),
        },
        felt_written(*old(vm), *final(vm), ids_data@, *ap_tracking, var_name@, value, r),
{
    let r = insert_value_from_var_name(
        var_name,
        MaybeRelocatable::Int(value),
        vm,
        ids_data,
        ap_tracking,
    );
    proof {
        if ids_addr(*old(vm), ids_data@, *ap_tracking, var_name@) is Some {
            lemma_ids_addr_monotone(*old(vm), *vm, ids_data@, *ap_tracking, var_name@);
        }
    }
    r
}

/// Writes three field elements to the cells that three names stand for, in
/// order: see `three_writes`.
pub fn write_three(
    a: &str,
    first: Felt252,
    b: &str,
    second: Felt252,
    c: &str,
    third: Felt252,
    vm: &mut VirtualMachine,
    ids_data: &Vec<(String, HintReference)>,
    ap_tracking: &ApTracking,
) -> (r: Result<(), HintError>)
    ensures
        only_wrote(*old(vm), *final(vm)),
        three_writes(*old(vm), ids_data@, *ap_tracking, a@, first, b@, second, c@, third, r),
        r is Ok ==> (ids_addr(*final(vm), ids_data@, *ap_tracking, c@) matches Some(addr)
            && final(vm).memory.cell(addr) == Some(MaybeRelocatable::Int(third))),
        r is Ok ==> (ids_addr(*final(vm), ids_data@, *ap_tracking, a@) matches Some(addr)
            && final(vm).memory.cell(addr) == Some(MaybeRelocatable::Int(first))),
        r is Ok ==> (ids_addr(*final(vm), ids_data@, *ap_tracking, b@) matches Some(addr)
            && final(vm).memory.cell(addr) == Some(MaybeRelocatable::Int(second))),
{
    match write_felt(a, first, vm, ids_data, ap_tracking) {
        Ok(()) => {},
        Err(e) => {
            return Err(e);
        },
    }
    let ghost middle = *vm;
    proof {
        lemma_second_write(*old(vm), middle, ids_data@, *ap_tracking, a@, first, b@, second);
        lemma_second_write(*old(vm), middle, ids_data@, *ap_tracking, a@, first, c@, third);
    }
    match write_felt(b, second, vm, ids_data, ap_tracking) {
        Ok(()) => {},
        Err(e) => {
            return Err(e);
        },
    }
    let ghost last = *vm;
    proof {
        lemma_second_write(middle, last, ids_data@, *ap_tracking, b@, second, c@, third);
    }
    let r = write_felt(c, third, vm, ids_data, ap_tracking);
    proof {
        if ids_addr(*old(vm), ids_data@, *ap_tracking, b@) is None {
            assert(two_writes(middle, ids_data@, *ap_tracking, b@, second, c@, third, r));
        }
        if r is Ok {
            lemma_ids_addr_monotone(middle, last, ids_data@, *ap_tracking, a@);
            lemma_ids_addr_monotone(last, *vm, ids_data@, *ap_tracking, a@);
            lemma_ids_addr_monotone(last, *vm, ids_data@, *ap_tracking, b@);
            let addr_a = ids_addr(middle, ids_data@, *ap_tracking, a@).unwrap();
            let addr_b = ids_addr(last, ids_data@, *ap_tracking, b@).unwrap();
            assert(middle.memory.cell(addr_a) == Some(MaybeRelocatable::Int(first)));
            assert(last.memory.cell(addr_a) == Some(MaybeRelocatable::Int(first)));
            assert(last.memory.cell(addr_b) == Some(MaybeRelocatable::Int(second)));
        }
    }
    r
}

/// The names of the two constants that bound the arcs.
pub const PRIME_OVER_3_HIGH: &'static str =
    "starkware.cairo.common.math.assert_le_felt.PRIME_OVER_3_HIGH";

pub const PRIME_OVER_2_HIGH: &'static str =
    "starkware.cairo.common.math.assert_le_felt.PRIME_OVER_2_HIGH";

/// What writing the split lengths of the two shortest arcs to the four cells
/// from `ptr` on comes to. The cells are written in the order second, first,
/// fourth, third; the error of the first that memory refuses or that lies
/// beyond the machine words is returned.
pub open spec fn arcs_written(
    vm: VirtualMachine,
    ptr: Relocatable,
    q0: Felt252,
    r0: Felt252,
    q1: Felt252,
    r1: Felt252,
) -> Result<(), HintError> {
    match ptr.moved_forward(1) {
        Err(e) => Err(HintError::Math(e)),
        Ok(cell1) => match vm.memory.insert_verdict(cell1, MaybeRelocatable::Int(q0)) {
            Err(e) => Err(HintError::Memory(e)),
            Ok(()) => match vm.memory.insert_verdict(ptr, MaybeRelocatable::Int(r0)) {
                Err(e) => Err(HintError::Memory(e)),
                Ok(()) => match ptr.moved_forward(3) {
                    Err(e) => Err(HintError::Math(e)),
                    Ok(cell3) => match vm.memory.insert_verdict(cell3, MaybeRelocatable::Int(q1)) {
                        Err(e) => Err(HintError::Memory(e)),
                        Ok(()) => match ptr.moved_forward(2) {
                            Err(e) => Err(HintError::Math(e)),
                            Ok(cell2) => match vm.memory.insert_verdict(
                                cell2,
                                MaybeRelocatable::Int(r1),
                            ) {
                                Err(e) => Err(HintError::Memory(e)),
                                Ok(()) => Ok(()),
                            },
                        },
                    },
                },
            },
        }
    }
}

/// Whether the four cells from `ptr` on hold the split lengths of the two
/// shortest arcs: remainder and quotient of the shortest, then remainder and
/// quotient of the middle one.
pub open spec fn arcs_in_cells(
    vm: VirtualMachine,
    ptr: Relocatable,
    q0: Felt252,
    r0: Felt252,
    q1: Felt252,
    r1: Felt252,
) -> bool {
    &&& ptr.offset + 3 <= usize::MAX
    &&& vm.memory.cell(ptr) == Some(MaybeRelocatable::Int(r0))
    &&& vm.memory.cell(Relocatable { offset: (ptr.offset + 1) as usize, ..ptr }) == Some(
        MaybeRelocatable::Int(q0),
    )
    &&& vm.memory.cell(Relocatable { offset: (ptr.offset + 2) as usize, ..ptr }) == Some(
        MaybeRelocatable::Int(r1),
    )
    &&& vm.memory.cell(Relocatable { offset: (ptr.offset + 3) as usize, ..ptr }) == Some(
        MaybeRelocatable::Int(q1),
    )
}

/// Whether machine and scope are as `assert_le_felt` leaves them where it
/// holds: of the three arcs in the order of `arc_before`, the number of the
/// longest is in the scope as `excluded`, and the lengths of the other two,
/// split by the two constants, are in the four cells from `ptr` on.
pub open spec fn arcs_stored(
    vm: VirtualMachine,
    scopes: ExecutionScopes,
    ptr: Relocatable,
    over_3: Felt252,
    over_2: Felt252,
    a: Felt252,
    b: Felt252,
) -> bool {
    exists|shortest: (Felt252, i32), middle: (Felt252, i32), longest: (Felt252, i32)|
        #![trigger same_arcs(
            shortest,
            middle,
            longest,
            (a, 0i32),
            (Felt252::from_int(b@ - a@), 1i32),
            (Felt252::from_int(prime() - 1 - b@), 2i32),
        )]
        same_arcs(
            shortest,
            middle,
            longest,
            (a, 0i32),
            (Felt252::from_int(b@ - a@), 1i32),
            (Felt252::from_int(prime() - 1 - b@), 2i32),
        ) && arc_before(shortest, middle) && arc_before(middle, longest) && (scopes.lookup(
            "excluded"@,
        ) matches Some(ScopeValue::Felt(excluded)) && excluded@ == longest.1) && over_3@ != 0
            && over_2@ != 0 && arcs_in_cells(
            vm,
            ptr,
            Felt252::from_int(shortest.0@ as int / over_3@ as int),
            Felt252::from_int(shortest.0@ as int % over_3@ as int),
            Felt252::from_int(middle.0@ as int / over_2@ as int),
            Felt252::from_int(middle.0@ as int % over_2@ as int),
        )
}

/// Whether `r` is what `assert_le_felt` comes to for the two shortest arcs:
/// the error of an arc that is too long, else of a constant that is zero, else
/// what the writes of the split lengths come to.
pub open spec fn arcs_checked(
    vm: VirtualMachine,
    ptr: Relocatable,
    over_3: Felt252,
    over_2: Felt252,
    shortest: Felt252,
    middle: Felt252,
    r: Result<(), HintError>,
) -> bool {
    if shortest@ > prime() / 3 || middle@ > prime() / 2 {
        r matches Err(HintError::ArcTooBig(s, t, m, u)) && s == shortest && m == middle && t@
            == prime() / 3 && u@ == prime() / 3
    } else if over_3@ == 0 || over_2@ == 0 {
        r == Err::<(), HintError>(HintError::Math(MathError::DividedByZero))
    } else {
        r == arcs_written(
            vm,
            ptr,
            Felt252::from_int(shortest@ as int / over_3@ as int),
            Felt252::from_int(shortest@ as int % over_3@ as int),
            Felt252::from_int(middle@ as int / over_2@ as int),
            Felt252::from_int(middle@ as int % over_2@ as int),
        )
    }
}

/// Whether `r` is what `assert_le_felt` comes to once its inputs are read and
/// `a <= b` holds: see `arcs_checked`, for the two that come first of the three
/// arcs in the order of `arc_before`.
pub open spec fn arcs_outcome(
    vm: VirtualMachine,
    ptr: Relocatable,
    over_3: Felt252,
    over_2: Felt252,
    a: Felt252,
    b: Felt252,
    r: Result<(), HintError>,
) -> bool {
    exists|shortest: (Felt252, i32), middle: (Felt252, i32), longest: (Felt252, i32)|
        #![trigger same_arcs(
            shortest,
            middle,
            longest,
            (a, 0i32),
            (Felt252::from_int(b@ - a@), 1i32),
            (Felt252::from_int(prime() - 1 - b@), 2i32),
        )]
        same_arcs(
            shortest,
            middle,
            longest,
            (a, 0i32),
            (Felt252::from_int(b@ - a@), 1i32),
            (Felt252::from_int(prime() - 1 - b@), 2i32),
        ) && arc_before(shortest, middle) && arc_before(middle, longest) && arcs_checked(
            vm,
            ptr,
            over_3,
            over_2,
            shortest.0,
            middle.0,
            r,
        )
}

/// Writes the split lengths of the two shortest arcs to the four cells from
/// `ptr` on: see `arcs_written`.
pub fn write_arcs(
    vm: &mut VirtualMachine,
    ptr: Relocatable,
    q0: Felt252,
    r0: Felt252,
    q1: Felt252,
    r1: Felt252,
) -> (r: Result<(), HintError>)
    ensures
        only_wrote(*old(vm), *final(vm)),
        r == arcs_written(*old(vm), ptr, q0, r0, q1, r1),
        r is Ok ==> arcs_in_cells(*final(vm), ptr, q0, r0, q1, r1),
{
    let cell1 = match ptr.add_usize(1) {
        Ok(addr) => addr,
        Err(e) => {
            return Err(HintError::Math(e));
        },
    };
    match vm.insert_value(cell1, MaybeRelocatable::Int(q0)) {
        Ok(()) => {},
        Err(e) => {
            return Err(HintError::Memory(e));
        },
    }
    let ghost first = vm.memory;
    proof {
        lemma_cell_verdict_kept(
            old(vm).memory,
            first,
            cell1,
            MaybeRelocatable::Int(q0),
            ptr,
            MaybeRelocatable::Int(r0),
        );
    }
    match vm.insert_value(ptr, MaybeRelocatable::Int(r0)) {
        Ok(()) => {},
        Err(e) => {
            return Err(HintError::Memory(e));
        },
    }
    let ghost second = vm.memory;
    let cell3 = match ptr.add_usize(3) {
        Ok(addr) => addr,
        Err(e) => {
            return Err(HintError::Math(e));
        },
    };
    proof {
        lemma_cell_verdict_kept(
            old(vm).memory,
            first,
            cell1,
            MaybeRelocatable::Int(q0),
            cell3,
            MaybeRelocatable::Int(q1),
        );
        lemma_cell_verdict_kept(
            first,
            second,
            ptr,
            MaybeRelocatable::Int(r0),
            cell3,
            MaybeRelocatable::Int(q1),
        );
    }
    match vm.insert_value(cell3, MaybeRelocatable::Int(q1)) {
        Ok(()) => {},
        Err(e) => {
            return Err(HintError::Memory(e));
        },
    }
    let ghost third = vm.memory;
    let cell2 = match ptr.add_usize(2) {
        Ok(addr) => addr,
        Err(e) => {
            return Err(HintError::Math(e));
        },
    };
    proof {
        lemma_cell_verdict_kept(
            old(vm).memory,
            first,
            cell1,
            MaybeRelocatable::Int(q0),
            cell2,
            MaybeRelocatable::Int(r1),
        );
        lemma_cell_verdict_kept(
            first,
            second,
            ptr,
            MaybeRelocatable::Int(r0),
            cell2,
            MaybeRelocatable::Int(r1),
        );
        lemma_cell_verdict_kept(
            second,
            third,
            cell3,
            MaybeRelocatable::Int(q1),
            cell2,
            MaybeRelocatable::Int(r1),
        );
    }
    let wrote = vm.insert_value(cell2, MaybeRelocatable::Int(r1));
    proof {
        if wrote is Ok {
            assert(first.cell(cell1) == Some(MaybeRelocatable::Int(q0)));
            assert(second.cell(ptr) == Some(MaybeRelocatable::Int(r0)));
            assert(second.cell(cell1) == Some(MaybeRelocatable::Int(q0)));
            assert(third.cell(cell3) == Some(MaybeRelocatable::Int(q1)));
            assert(third.cell(ptr) == Some(MaybeRelocatable::Int(r0)));
            assert(third.cell(cell1) == Some(MaybeRelocatable::Int(q0)));
            assert(vm.memory.cell(cell2) == Some(MaybeRelocatable::Int(r1)));
        }
    }
    match wrote {
        Ok(()) => Ok(()),
        Err(e) => Err(HintError::Memory(e)),
    }
}

/// A write to one cell leaves what memory says of a write to another cell.
pub proof fn lemma_cell_verdict_kept(
    before: Memory,
    after: Memory,
    key: Relocatable,
    val: MaybeRelocatable,
    other: Relocatable,
    value: MaybeRelocatable,
)
    requires
        before.insert_effect(after, key, val),
        other != key,
    ensures
        after.insert_verdict(other, value) == before.insert_verdict(other, value),
{
    assert(after.cell(other) == before.cell(other));
    assert(after.rule(other.segment_index as int) == before.rule(other.segment_index as int));
}

/// Proves `a <= b` by the arcs that `a` and `b` cut the field into: `[0, a]`,
/// `[a, b]` and `[b, prime - 1]`. The two shortest arcs must be at most a third
/// and a half of the prime; their lengths, split by the two constants, go to
/// the four cells at `range_check_ptr`, and the number of the longest arc goes
/// to the scope as `excluded`.
pub fn assert_le_felt(
    vm: &mut VirtualMachine,
    exec_scopes: &mut ExecutionScopes,
    ids_data: &Vec<(String, HintReference)>,
    ap_tracking: &ApTracking,
    constants: &Vec<(String, Felt252)>,
) -> (r: Result<(), HintError>)
    ensures
        only_wrote(*old(vm), *final(vm)),
        constant_named(constants@, PRIME_OVER_3_HIGH@, 0) is None ==> (r matches Err(
            HintError::MissingConstant(n),
        ) && n@ == PRIME_OVER_3_HIGH@),
        (constant_named(constants@, PRIME_OVER_3_HIGH@, 0) is Some && constant_named(
            constants@,
            PRIME_OVER_2_HIGH@,
            0,
        ) is None) ==> (r matches Err(HintError::MissingConstant(n)) && n@ == PRIME_OVER_2_HIGH@),
        (constant_named(constants@, PRIME_OVER_3_HIGH@, 0) is Some && constant_named(
            constants@,
            PRIME_OVER_2_HIGH@,
            0,
        ) is Some && ids_integer(*old(vm), ids_data@, *ap_tracking, "a"@) is Some && ids_integer(
            *old(vm),
            ids_data@,
            *ap_tracking,
            "b"@,
        ) is Some && ids_ptr(*old(vm), ids_data@, *ap_tracking, "range_check_ptr"@) is Some
            && ids_integer(*old(vm), ids_data@, *ap_tracking, "a"@).unwrap()@ <= ids_integer(
            *old(vm),
            ids_data@,
            *ap_tracking,
            "b"@,
        ).unwrap()@) ==> arcs_outcome(
            *old(vm),
            ids_ptr(*old(vm), ids_data@, *ap_tracking, "range_check_ptr"@).unwrap(),
            constant_named(constants@, PRIME_OVER_3_HIGH@, 0).unwrap(),
            constant_named(constants@, PRIME_OVER_2_HIGH@, 0).unwrap(),
            ids_integer(*old(vm), ids_data@, *ap_tracking, "a"@).unwrap(),
            ids_integer(*old(vm), ids_data@, *ap_tracking, "b"@).unwrap(),
            r,
        ),
        r is Ok ==> {
            &&& ids_integer(*old(vm), ids_data@, *ap_tracking, "a"@) matches Some(a)
            &&& ids_integer(*old(vm), ids_data@, *ap_tracking, "b"@) matches Some(b)
            &&& a@ <= b@
            &&& final(exec_scopes).lookup("excluded"@) matches Some(ScopeValue::Felt(excluded))
                && excluded@ <= 2
            &&& ids_ptr(*old(vm), ids_data@, *ap_tracking, "range_check_ptr"@) matches Some(ptr)
            &&& constant_named(constants@, PRIME_OVER_3_HIGH@, 0) matches Some(over_3)
            &&& constant_named(constants@, PRIME_OVER_2_HIGH@, 0) matches Some(over_2)
            &&& arcs_stored(*final(vm), *final(exec_scopes), ptr, over_3, over_2, a, b)
        },
        r matches Err(e) && (e matches HintError::NonLeFelt252(_, _)
            || e matches HintError::MissingConstant(_) || e matches HintError::ArcTooBig(_, _, _, _)
            || e matches HintError::Internal(_)) ==> *final(vm) == *old(vm) && *final(exec_scopes)
            == *old(exec_scopes),
        (ids_integer(*old(vm), ids_data@, *ap_tracking, "a"@) is Some && ids_integer(
            *old(vm),
            ids_data@,
            *ap_tracking,
            "b"@,
        ) is Some && ids_integer(*old(vm), ids_data@, *ap_tracking, "a"@).unwrap()@ > ids_integer(
            *old(vm),
            ids_data@,
            *ap_tracking,
            "b"@,
        ).unwrap()@ && constant_named(constants@, PRIME_OVER_3_HIGH@, 0) is Some
            && constant_named(constants@, PRIME_OVER_2_HIGH@, 0) is Some && ids_ptr(
            *old(vm),
            ids_data@,
            *ap_tracking,
            "range_check_ptr"@,
        ) is Some) ==> r == Err::<(), HintError>(
            HintError::NonLeFelt252(
                ids_integer(*old(vm), ids_data@, *ap_tracking, "a"@).unwrap(),
                ids_integer(*old(vm), ids_data@, *ap_tracking, "b"@).unwrap(),
            ),
        ),
{
    let prime_over_3_high = match get_constant(constants, PRIME_OVER_3_HIGH) {
        Ok(c) => c,
        Err(e) => {
            return Err(e);
        },
    };
    let prime_over_2_high = match get_constant(constants, PRIME_OVER_2_HIGH) {
        Ok(c) => c,
        Err(e) => {
            return Err(e);
        },
    };
    let a = match get_integer_from_var_name("a", vm, ids_data, ap_tracking) {
        Ok(a) => a,
        Err(e) => {
            return Err(e);
        },
    };
    let b = match get_integer_from_var_name("b", vm, ids_data, ap_tracking) {
        Ok(b) => b,
        Err(e) => {
            return Err(e);
        },
    };
    let range_check_ptr = match get_ptr_from_var_name("range_check_ptr", vm, ids_data, ap_tracking) {
        Ok(ptr) => ptr,
        Err(e) => {
            return Err(e);
        },
    };
    if a.gt(&b) {
        return Err(HintError::NonLeFelt252(a, b));
    }
    a.note_canonical();
    b.note_canonical();
    let arc1 = b.sub(&a);
    let arc2 = Felt252::zero().sub(&Felt252::one()).sub(&b);
    proof {
        let p = prime() as int;
        vstd::arithmetic::div_mod::lemma_small_mod((b@ - a@) as nat, prime());
        vstd::arithmetic::div_mod::lemma_fundamental_div_mod_converse(-1, p, -1, p - 1);
        vstd::arithmetic::div_mod::lemma_small_mod((p - 1 - b@) as nat, prime());
        Felt252::lemma_is_from_int(arc1, b@ - a@);
        Felt252::lemma_is_from_int(arc2, p - 1 - b@);
    }
    let (shortest, middle, longest) = sort_arcs((a, 0), (arc1, 1), (arc2, 2));
    let third = match div_prime_by_bound(Felt252::constant(3)) {
        Ok(q) => q,
        Err(e) => {
            return Err(HintError::Internal(e));
        },
    };
    let half = match div_prime_by_bound(Felt252::constant(2)) {
        Ok(q) => q,
        Err(e) => {
            return Err(HintError::Internal(e));
        },
    };
    proof {
        vstd::arithmetic::div_mod::lemma_small_mod(prime() / 3, prime());
        vstd::arithmetic::div_mod::lemma_small_mod(prime() / 2, prime());
    }
    if shortest.0.gt(&third) || middle.0.gt(&half) {
        let r = Err(HintError::ArcTooBig(shortest.0, third, middle.0, third));
        proof {
            assert(arcs_checked(
                *old(vm),
                range_check_ptr,
                prime_over_3_high,
                prime_over_2_high,
                shortest.0,
                middle.0,
                r,
            ));
            assert(same_arcs(
                shortest,
                middle,
                longest,
                (a, 0i32),
                (Felt252::from_int(b@ - a@), 1i32),
                (Felt252::from_int(prime() - 1 - b@), 2i32),
            ));
        }
        return r;
    }
    if prime_over_3_high.is_zero() || prime_over_2_high.is_zero() {
        proof {
            assert(same_arcs(
                shortest,
                middle,
                longest,
                (a, 0i32),
                (Felt252::from_int(b@ - a@), 1i32),
                (Felt252::from_int(prime() - 1 - b@), 2i32),
            ));
        }
        return Err(HintError::Math(MathError::DividedByZero));
    }
    let excluded = Felt252::from_i128(longest.1 as i128);
    exec_scopes.assign_or_update_variable("excluded", ScopeValue::Felt(excluded));
    let (q_0, r_0) = shortest.0.div_mod_floor(&prime_over_3_high);
    let (q_1, r_1) = middle.0.div_mod_floor(&prime_over_2_high);
    proof {
        vstd::arithmetic::div_mod::lemma_small_mod(longest.1 as nat, prime());
        vstd::arithmetic::div_mod::lemma_small_mod(q_0@, prime());
        vstd::arithmetic::div_mod::lemma_small_mod(r_0@, prime());
        vstd::arithmetic::div_mod::lemma_small_mod(q_1@, prime());
        vstd::arithmetic::div_mod::lemma_small_mod(r_1@, prime());
        Felt252::lemma_is_from_int(q_0, shortest.0@ as int / prime_over_3_high@ as int);
        Felt252::lemma_is_from_int(r_0, shortest.0@ as int % prime_over_3_high@ as int);
        Felt252::lemma_is_from_int(q_1, middle.0@ as int / prime_over_2_high@ as int);
        Felt252::lemma_is_from_int(r_1, middle.0@ as int % prime_over_2_high@ as int);
    }
    let r = write_arcs(vm, range_check_ptr, q_0, r_0, q_1, r_1);
    proof {
        if r is Ok {
            assert(exec_scopes.lookup("excluded"@) == Some(ScopeValue::Felt(excluded)));
            assert(excluded@ == longest.1);
        }
        assert(arcs_checked(
            *old(vm),
            range_check_ptr,
            prime_over_3_high,
            prime_over_2_high,
            shortest.0,
            middle.0,
            r,
        ));
        assert(same_arcs(
            shortest,
            middle,
            longest,
            (a, 0i32),
            (Felt252::from_int(b@ - a@), 1i32),
            (Felt252::from_int(prime() - 1 - b@), 2i32),
        ));
    }
    r
}

/// Holds where the arc that `assert_le_felt` excluded is the third.
pub fn assert_le_felt_excluded_2(exec_scopes: &mut ExecutionScopes) -> (r: Result<(), HintError>)
    ensures
        *final(exec_scopes) == *old(exec_scopes),
        match old(exec_scopes).lookup("excluded"@) {
            Some(ScopeValue::Felt(excluded)) => if excluded@ == 2 {
                r is Ok
            } else {
                r == Err::<(), HintError>(HintError::ExcludedNot2(excluded))
            },
            _ => r matches Err(HintError::VariableNotInScopeError(n)) && n@ == "excluded"@,
        },
{
    let excluded = match exec_scopes.get("excluded") {
        Ok(excluded) => excluded,
        Err(e) => {
            return Err(e);
        },
    };
    let two = Felt252::constant(2);
    proof {
        if excluded@ == 2 {
            Felt252::lemma_view_injective(excluded, two);
        }
    }
    if excluded != two {
        Err(HintError::ExcludedNot2(excluded))
    } else {
        Ok(())
    }
}

/// Writes to the cell at the allocation pointer whether the arc that
/// `assert_le_felt` excluded is not the second: 1 where it is not, else 0.
pub fn assert_le_felt_excluded_1(vm: &mut VirtualMachine, exec_scopes: &mut ExecutionScopes) -> (r:
    Result<(), HintError>)
    ensures
        *final(exec_scopes) == *old(exec_scopes),
        match old(exec_scopes).lookup("excluded"@) {
            Some(ScopeValue::Felt(excluded)) => {
                let flag = MaybeRelocatable::Int(
                    Felt252::from_int(
                        if excluded@ != 1 {
                            1int
                        } else {
                            0
                        },
                    ),
                );
                r == write_verdict(*old(vm), old(vm).run_context.ap_addr(), flag) && written(
                    *old(vm),
                    *final(vm),
                    old(vm).run_context.ap_addr(),
                    flag,
                )
            },
            _ => (r matches Err(HintError::VariableNotInScopeError(n)) && n@ == "excluded"@)
                && *final(vm) == *old(vm),
        },
{
    let excluded = match exec_scopes.get("excluded") {
        Ok(excluded) => excluded,
        Err(e) => {
            return Err(e);
        },
    };
    if !excluded.is_one() {
        insert_value_into_ap(vm, MaybeRelocatable::Int(Felt252::constant(1)))
    } else {
        insert_value_into_ap(vm, MaybeRelocatable::Int(Felt252::constant(0)))
    }
}

/// Writes to the cell at the allocation pointer whether the arc that
/// `assert_le_felt` excluded is not the first: 1 where it is not, else 0.
pub fn assert_le_felt_excluded_0(vm: &mut VirtualMachine, exec_scopes: &mut ExecutionScopes) -> (r:
    Result<(), HintError>)
    ensures
        *final(exec_scopes) == *old(exec_scopes),
        match old(exec_scopes).lookup("excluded"@) {
            Some(ScopeValue::Felt(excluded)) => {
                let flag = MaybeRelocatable::Int(
                    Felt252::from_int(
                        if excluded@ != 0 {
                            1int
                        } else {
                            0
                        },
                    ),
                );
                r == write_verdict(*old(vm), old(vm).run_context.ap_addr(), flag) && written(
                    *old(vm),
                    *final(vm),
                    old(vm).run_context.ap_addr(),
                    flag,
                )
            },
            _ => (r matches Err(HintError::VariableNotInScopeError(n)) && n@ == "excluded"@)
                && *final(vm) == *old(vm),
        },
{
    let excluded = match exec_scopes.get("excluded") {
        Ok(excluded) => excluded,
        Err(e) => {
            return Err(e);
        },
    };
    if !excluded.is_zero() {
        insert_value_into_ap(vm, MaybeRelocatable::Int(Felt252::constant(1)))
    } else {
        insert_value_into_ap(vm, MaybeRelocatable::Int(Felt252::constant(0)))
    }
}

/// Writes to the cell at the allocation pointer whether `a <= b` fails: 0 where
/// it holds, else 1.
pub fn is_le_felt(
    vm: &mut VirtualMachine,
    ids_data: &Vec<(String, HintReference)>,
    ap_tracking: &ApTracking,
) -> (r: Result<(), HintError>)
    ensures
        match (
            ids_integer(*old(vm), ids_data@, *ap_tracking, "a"@),
            ids_integer(*old(vm), ids_data@, *ap_tracking, "b"@),
        ) {
            (Some(a), Some(b)) => {
                let flag = MaybeRelocatable::Int(
                    Felt252::from_int(
                        if a@ > b@ {
                            1int
                        } else {
                            0
                        },
                    ),
                );
                r == write_verdict(*old(vm), old(vm).run_context.ap_addr(), flag) && written(
                    *old(vm),
                    *final(vm),
                    old(vm).run_context.ap_addr(),
                    flag,
                )
            },
            _ => r is Err && *final(vm) == *old(vm),
        },
        ids_integer(*old(vm), ids_data@, *ap_tracking, "a"@) is None ==> (r matches Err(e)
            && integer_fault(*old(vm), ids_data@, *ap_tracking, "a"@, e)),
        (ids_integer(*old(vm), ids_data@, *ap_tracking, "a"@) is Some && ids_integer(*old(vm), ids_data@, *ap_tracking, "b"@) is None) ==> (r matches Err(e)
            && integer_fault(*old(vm), ids_data@, *ap_tracking, "b"@, e)),
{
    let a_mod = match get_integer_from_var_name("a", vm, ids_data, ap_tracking) {
        Ok(a) => a,
        Err(e) => {
            return Err(e);
        },
    };
    let b_mod = match get_integer_from_var_name("b", vm, ids_data, ap_tracking) {
        Ok(b) => b,
        Err(e) => {
            return Err(e);
        },
    };
    let value = if a_mod.gt(&b_mod) {
        Felt252::constant(1)
    } else {
        Felt252::constant(0)
    };
    insert_value_into_ap(vm, MaybeRelocatable::Int(value))
}

/// What `assert_not_equal` says of two cell values.
pub open spec fn not_equal_verdict(a: MaybeRelocatable, b: MaybeRelocatable) -> Result<
    (),
    HintError,
> {
    match (a, b) {
        (MaybeRelocatable::Int(x), MaybeRelocatable::Int(y)) => if field_sub(x@, y@) == 0 {
            Err(HintError::AssertNotEqualFail(a, b))
        } else {
            Ok(())
        },
        (MaybeRelocatable::RelocatableValue(x), MaybeRelocatable::RelocatableValue(y)) => {
            if x.segment_index != y.segment_index {
                Err(HintError::Internal(VirtualMachineError::DiffIndexComp(x, y)))
            } else if x.offset == y.offset {
                Err(HintError::AssertNotEqualFail(a, b))
            } else {
                Ok(())
            }
        },
        _ => Err(HintError::Internal(VirtualMachineError::DiffTypeComparison(a, b))),
    }
}

/// Holds where `a` and `b` are two different field elements, or two different
/// addresses of one segment.
pub fn assert_not_equal(
    vm: &mut VirtualMachine,
    ids_data: &Vec<(String, HintReference)>,
    ap_tracking: &ApTracking,
) -> (r: Result<(), HintError>)
    ensures
        *final(vm) == *old(vm),
        match (
            ids_value(*old(vm), ids_data@, *ap_tracking, "a"@),
            ids_value(*old(vm), ids_data@, *ap_tracking, "b"@),
        ) {
            (Some(a), Some(b)) => r == not_equal_verdict(a, b),
            (None, _) => r matches Err(HintError::UnknownIdentifier(n)) && n@ == "a"@,
            (Some(_), None) => r matches Err(HintError::UnknownIdentifier(n)) && n@ == "b"@,
        },
{
    let maybe_rel_a = match get_maybe_relocatable_from_var_name("a", vm, ids_data, ap_tracking) {
        Ok(a) => a,
        Err(e) => {
            return Err(e);
        },
    };
    let maybe_rel_b = match get_maybe_relocatable_from_var_name("b", vm, ids_data, ap_tracking) {
        Ok(b) => b,
        Err(e) => {
            return Err(e);
        },
    };
    match (maybe_rel_a, maybe_rel_b) {
        (MaybeRelocatable::Int(a), MaybeRelocatable::Int(b)) => {
            if a.sub(&b).is_zero() {
                return Err(
                    HintError::AssertNotEqualFail(
                        MaybeRelocatable::Int(a),
                        MaybeRelocatable::Int(b),
                    ),
                );
            }
            Ok(())
        },
        (MaybeRelocatable::RelocatableValue(a), MaybeRelocatable::RelocatableValue(b)) => {
            if a.segment_index != b.segment_index {
                return Err(HintError::Internal(VirtualMachineError::DiffIndexComp(a, b)));
            }
            if a.offset == b.offset {
                return Err(
                    HintError::AssertNotEqualFail(
                        MaybeRelocatable::RelocatableValue(a),
                        MaybeRelocatable::RelocatableValue(b),
                    ),
                );
            }
            Ok(())
        },
        (a, b) => Err(HintError::Internal(VirtualMachineError::DiffTypeComparison(a, b))),
    }
}

/// Holds where `a` is below the bound of the range-check builtin.
pub fn assert_nn(
    vm: &mut VirtualMachine,
    ids_data: &Vec<(String, HintReference)>,
    ap_tracking: &ApTracking,
) -> (r: Result<(), HintError>)
    ensures
        *final(vm) == *old(vm),
        match (ids_integer(*old(vm), ids_data@, *ap_tracking, "a"@), rc_bound(*old(vm))) {
            (Some(a), Some(bound)) => if is_nn_flag(a, bound) == 1 {
                r == Err::<(), HintError>(HintError::AssertNNValueOutOfRange(a))
            } else {
                r is Ok
            },
            (Some(_), None) => r == Err::<(), HintError>(
                HintError::Internal(VirtualMachineError::NoRangeCheckBuiltin),
            ),
            (None, _) => r is Err,
        },
        ids_integer(*old(vm), ids_data@, *ap_tracking, "a"@) is None ==> (r matches Err(e)
            && integer_fault(*old(vm), ids_data@, *ap_tracking, "a"@, e)),
        (ids_integer(*old(vm), ids_data@, *ap_tracking, "a"@) is Some && rc_bound(*old(vm)) is None) ==> r == Err::<(), HintError>(
            HintError::Internal(VirtualMachineError::NoRangeCheckBuiltin),
        ),
{
    let a = match get_integer_from_var_name("a", vm, ids_data, ap_tracking) {
        Ok(a) => a,
        Err(e) => {
            return Err(e);
        },
    };
    let bound = match range_check_bound(vm) {
        Ok(bound) => bound,
        Err(e) => {
            return Err(e);
        },
    };
    match bound {
        Some(b) => if a.ge(&b) {
            Err(HintError::AssertNNValueOutOfRange(a))
        } else {
            Ok(())
        },
        None => Ok(()),
    }
}

/// Holds where `value` is not zero.
pub fn assert_not_zero(
    vm: &mut VirtualMachine,
    ids_data: &Vec<(String, HintReference)>,
    ap_tracking: &ApTracking,
) -> (r: Result<(), HintError>)
    ensures
        *final(vm) == *old(vm),
        match ids_integer(*old(vm), ids_data@, *ap_tracking, "value"@) {
            Some(value) => if value@ == 0 {
                r matches Err(HintError::AssertNotZero(v, p)) && v == value && p@ == PRIME_STR@
            } else {
                r is Ok
            },
            None => r is Err,
        },
        ids_integer(*old(vm), ids_data@, *ap_tracking, "value"@) is None ==> (r matches Err(e)
            && integer_fault(*old(vm), ids_data@, *ap_tracking, "value"@, e)),
{
    let value = match get_integer_from_var_name("value", vm, ids_data, ap_tracking) {
        Ok(value) => value,
        Err(e) => {
            return Err(e);
        },
    };
    if value.is_zero() {
        return Err(HintError::AssertNotZero(value, String::from_str(PRIME_STR)));
    }
    Ok(())
}

/// Holds where `value` is zero: a split must leave nothing over.
pub fn split_int_assert_range(
    vm: &mut VirtualMachine,
    ids_data: &Vec<(String, HintReference)>,
    ap_tracking: &ApTracking,
) -> (r: Result<(), HintError>)
    ensures
        *final(vm) == *old(vm),
        match ids_integer(*old(vm), ids_data@, *ap_tracking, "value"@) {
            Some(value) => if value@ != 0 {
                r == Err::<(), HintError>(HintError::SplitIntNotZero)
            } else {
                r is Ok
            },
            None => r is Err,
        },
        ids_integer(*old(vm), ids_data@, *ap_tracking, "value"@) is None ==> (r matches Err(e)
            && integer_fault(*old(vm), ids_data@, *ap_tracking, "value"@, e)),
{
    let value = match get_integer_from_var_name("value", vm, ids_data, ap_tracking) {
        Ok(value) => value,
        Err(e) => {
            return Err(e);
        },
    };
    if !value.is_zero() {
        return Err(HintError::SplitIntNotZero);
    }
    Ok(())
}

/// Holds where `a < b`.
pub fn assert_lt_felt(
    vm: &mut VirtualMachine,
    ids_data: &Vec<(String, HintReference)>,
    ap_tracking: &ApTracking,
) -> (r: Result<(), HintError>)
    ensures
        *final(vm) == *old(vm),
        match (
            ids_integer(*old(vm), ids_data@, *ap_tracking, "a"@),
            ids_integer(*old(vm), ids_data@, *ap_tracking, "b"@),
        ) {
            (Some(a), Some(b)) => if a@ >= b@ {
                r == Err::<(), HintError>(HintError::AssertLtFelt252(a, b))
            } else {
                r is Ok
            },
            _ => r is Err,
        },
        ids_integer(*old(vm), ids_data@, *ap_tracking, "a"@) is None ==> (r matches Err(e)
            && integer_fault(*old(vm), ids_data@, *ap_tracking, "a"@, e)),
        (ids_integer(*old(vm), ids_data@, *ap_tracking, "a"@) is Some && ids_integer(*old(vm), ids_data@, *ap_tracking, "b"@) is None) ==> (r matches Err(e)
            && integer_fault(*old(vm), ids_data@, *ap_tracking, "b"@, e)),
{
    let a = match get_integer_from_var_name("a", vm, ids_data, ap_tracking) {
        Ok(a) => a,
        Err(e) => {
            return Err(e);
        },
    };
    let b = match get_integer_from_var_name("b", vm, ids_data, ap_tracking) {
        Ok(b) => b,
        Err(e) => {
            return Err(e);
        },
    };
    if a.ge(&b) {
        return Err(HintError::AssertLtFelt252(a, b));
    }
    Ok(())
}

/// Writes the lowest limb of `value` in base `base` to the cell that `output`
/// points to: `value % base`, which must not exceed `bound`.
pub fn split_int(
    vm: &mut VirtualMachine,
    ids_data: &Vec<(String, HintReference)>,
    ap_tracking: &ApTracking,
) -> (r: Result<(), HintError>)
    ensures
        only_wrote(*old(vm), *final(vm)),
        match (
            ids_integer(*old(vm), ids_data@, *ap_tracking, "value"@),
            ids_integer(*old(vm), ids_data@, *ap_tracking, "base"@),
            ids_integer(*old(vm), ids_data@, *ap_tracking, "bound"@),
            ids_ptr(*old(vm), ids_data@, *ap_tracking, "output"@),
        ) {
            (Some(value), Some(base), Some(bound), Some(output)) => {
                if base@ == 0 {
                    r == Err::<(), HintError>(HintError::Math(MathError::DividedByZero))
                        && *final(vm) == *old(vm)
                } else if value@ % base@ > bound@ {
                    (r matches Err(HintError::SplitIntLimbOutOfRange(limb)) && limb@ == value@
                        % base@) && *final(vm) == *old(vm)
                } else {
                    let limb = MaybeRelocatable::Int(Felt252::from_int((value@ % base@) as int));
                    r == write_verdict(*old(vm), output, limb) && written(
                        *old(vm),
                        *final(vm),
                        output,
                        limb,
                    )
                }
            },
            _ => r is Err && *final(vm) == *old(vm),
        },
        ids_integer(*old(vm), ids_data@, *ap_tracking, "value"@) is None ==> (r matches Err(e)
            && integer_fault(*old(vm), ids_data@, *ap_tracking, "value"@, e)),
        (ids_integer(*old(vm), ids_data@, *ap_tracking, "value"@) is Some && ids_integer(*old(vm), ids_data@, *ap_tracking, "base"@) is None) ==> (r matches Err(e)
            && integer_fault(*old(vm), ids_data@, *ap_tracking, "base"@, e)),
        (ids_integer(*old(vm), ids_data@, *ap_tracking, "value"@) is Some && ids_integer(*old(vm), ids_data@, *ap_tracking, "base"@) is Some && ids_integer(*old(vm), ids_data@, *ap_tracking, "bound"@) is None) ==> (r matches Err(e)
            && integer_fault(*old(vm), ids_data@, *ap_tracking, "bound"@, e)),
{
    let value = match get_integer_from_var_name("value", vm, ids_data, ap_tracking) {
        Ok(value) => value,
        Err(e) => {
            return Err(e);
        },
    };
    let base = match get_integer_from_var_name("base", vm, ids_data, ap_tracking) {
        Ok(base) => base,
        Err(e) => {
            return Err(e);
        },
    };
    let bound = match get_integer_from_var_name("bound", vm, ids_data, ap_tracking) {
        Ok(bound) => bound,
        Err(e) => {
            return Err(e);
        },
    };
    let output = match get_ptr_from_var_name("output", vm, ids_data, ap_tracking) {
        Ok(output) => output,
        Err(e) => {
            return Err(e);
        },
    };
    if base.is_zero() {
        return Err(HintError::Math(MathError::DividedByZero));
    }
    let res = value.mod_floor(&base);
    if res.gt(&bound) {
        return Err(HintError::SplitIntLimbOutOfRange(res));
    }
    res.note_canonical();
    match vm.insert_value(output, MaybeRelocatable::Int(res)) {
        Ok(()) => Ok(()),
        Err(e) => Err(HintError::Memory(e)),
    }
}

/// Writes to `is_positive` whether `value`, read as a signed integer, is
/// positive: 1 where it is, else 0. Its magnitude must not exceed the bound of
/// the range-check builtin.
pub fn is_positive(
    vm: &mut VirtualMachine,
    ids_data: &Vec<(String, HintReference)>,
    ap_tracking: &ApTracking,
) -> (r: Result<(), HintError>)
    ensures
        only_wrote(*old(vm), *final(vm)),
        match (ids_integer(*old(vm), ids_data@, *ap_tracking, "value"@), rc_bound(*old(vm))) {
            (Some(value), Some(bound)) => {
                if bound matches Some(b) && (as_int(value@) > b@ || -as_int(value@) > b@) {
                    r == Err::<(), HintError>(HintError::ValueOutsideValidRange(value)) && *final(vm) == *old(vm)
                } else {
                    felt_written(
                        *old(vm),
                        *final(vm),
                        ids_data@,
                        *ap_tracking,
                        "is_positive"@,
                        Felt252::from_int(
                            if as_int(value@) > 0 {
                                1int
                            } else {
                                0
                            },
                        ),
                        r,
                    )
                }
            },
            _ => r is Err && *final(vm) == *old(vm),
        },
        ids_integer(*old(vm), ids_data@, *ap_tracking, "value"@) is None ==> (r matches Err(e)
            && integer_fault(*old(vm), ids_data@, *ap_tracking, "value"@, e)),
        (ids_integer(*old(vm), ids_data@, *ap_tracking, "value"@) is Some && rc_bound(*old(vm)) is None) ==> r == Err::<(), HintError>(
            HintError::Internal(VirtualMachineError::NoRangeCheckBuiltin),
        ),
{
    let value = match get_integer_from_var_name("value", vm, ids_data, ap_tracking) {
        Ok(value) => value,
        Err(e) => {
            return Err(e);
        },
    };
    let bound = match range_check_bound(vm) {
        Ok(bound) => bound,
        Err(e) => {
            return Err(e);
        },
    };
    let (negative, magnitude) = value.to_signed();
    match bound {
        Some(b) => if magnitude.gt(&b) {
            return Err(HintError::ValueOutsideValidRange(value));
        },
        None => {},
    }
    let result = if !negative && !magnitude.is_zero() {
        Felt252::constant(1)
    } else {
        Felt252::constant(0)
    };
    write_felt("is_positive", result, vm, ids_data, ap_tracking)
}

/// `2^128` as a machine-independent integer.
pub open spec fn two_128() -> nat {
    0x1_0000_0000_0000_0000_0000_0000_0000_0000nat
}

/// Splits `value` into its upper and lower 128 bits and writes them to `high`
/// and `low`.
pub fn split_felt(
    vm: &mut VirtualMachine,
    ids_data: &Vec<(String, HintReference)>,
    ap_tracking: &ApTracking,
) -> (r: Result<(), HintError>)
    ensures
        only_wrote(*old(vm), *final(vm)),
        ids_integer(*old(vm), ids_data@, *ap_tracking, "value"@) is None ==> r is Err && *final(vm) == *old(vm),
        ids_integer(*old(vm), ids_data@, *ap_tracking, "value"@) is Some ==> two_writes(
            *old(vm),
            ids_data@,
            *ap_tracking,
            "high"@,
            Felt252::from_int(
                ids_integer(*old(vm), ids_data@, *ap_tracking, "value"@).unwrap()@ as int
                    / two_128() as int,
            ),
            "low"@,
            Felt252::from_int(
                ids_integer(*old(vm), ids_data@, *ap_tracking, "value"@).unwrap()@ as int
                    % two_128() as int,
            ),
            r,
        ),
        r is Ok ==> {
            &&& ids_integer(*old(vm), ids_data@, *ap_tracking, "value"@) matches Some(value)
            &&& ids_addr(*old(vm), ids_data@, *ap_tracking, "high"@) matches Some(high)
                && final(vm).memory.cell(high) matches Some(MaybeRelocatable::Int(h)) && h@
                == value@ / two_128()
            &&& ids_addr(*final(vm), ids_data@, *ap_tracking, "low"@) matches Some(low)
                && final(vm).memory.cell(low) matches Some(MaybeRelocatable::Int(l)) && l@
                == value@ % two_128()
        },
        ids_integer(*old(vm), ids_data@, *ap_tracking, "value"@) is None ==> (r matches Err(e)
            && integer_fault(*old(vm), ids_data@, *ap_tracking, "value"@, e)),
{
    let value = match get_integer_from_var_name("value", vm, ids_data, ap_tracking) {
        Ok(value) => value,
        Err(e) => {
            return Err(e);
        },
    };
    value.note_canonical();
    let (high, low) = value.split_words();
    proof {
        vstd::arithmetic::div_mod::lemma_small_mod(high@, prime());
        vstd::arithmetic::div_mod::lemma_small_mod(low@, prime());
        Felt252::lemma_is_from_int(high, value@ as int / two_128() as int);
        Felt252::lemma_is_from_int(low, value@ as int % two_128() as int);
    }
    match write_felt("high", high, vm, ids_data, ap_tracking) {
        Ok(()) => {},
        Err(e) => {
            return Err(e);
        },
    }
    let ghost middle = *vm;
    proof {
        lemma_second_write(*old(vm), middle, ids_data@, *ap_tracking, "high"@, high, "low"@, low);
    }
    match write_felt("low", low, vm, ids_data, ap_tracking) {
        Ok(()) => {},
        Err(e) => {
            return Err(e);
        },
    }
    proof {
        let high_addr = ids_addr(*old(vm), ids_data@, *ap_tracking, "high"@).unwrap();
        assert(middle.memory.cell(high_addr) == Some(MaybeRelocatable::Int(high)));
    }
    Ok(())
}

/// Whether `root` is the square root of `whole`, rounded down.
pub open spec fn is_floor_root(whole: int, root: int) -> bool {
    root >= 0 && root * root <= whole && whole < (root + 1) * (root + 1)
}

/// The square root of `whole`, rounded down.
pub open spec fn floor_root(whole: int) -> int {
    choose|root: int| is_floor_root(whole, root)
}

/// An integer has one square root rounded down.
pub proof fn lemma_floor_root_unique(whole: int, root: int)
    requires
        is_floor_root(whole, root),
    ensures
        floor_root(whole) == root,
{
    let other = floor_root(whole);
    assert(is_floor_root(whole, other));
    if other < root {
        assert((other + 1) * (other + 1) <= root * root) by (nonlinear_arith)
            requires
                0 <= other,
                other + 1 <= root,
        ;
    } else if root < other {
        assert((root + 1) * (root + 1) <= other * other) by (nonlinear_arith)
            requires
                0 <= root,
                root + 1 <= other,
        ;
    }
}

/// Whether `root` is the integer square root of `value`, rounded down.
pub open spec fn is_isqrt(value: nat, root: nat) -> bool {
    root * root <= value < (root + 1) * (root + 1)
}

/// Writes the integer square root of `value`, which must be below `2^250`, to
/// `root`.
pub fn sqrt(
    vm: &mut VirtualMachine,
    ids_data: &Vec<(String, HintReference)>,
    ap_tracking: &ApTracking,
) -> (r: Result<(), HintError>)
    ensures
        only_wrote(*old(vm), *final(vm)),
        match ids_integer(*old(vm), ids_data@, *ap_tracking, "value"@) {
            Some(value) => {
                if value@ as int / pow(2, 250) != 0 {
                    r == Err::<(), HintError>(HintError::ValueOutside250BitRange(value)) && *final(vm) == *old(vm)
                } else {
                    (match ids_addr(*old(vm), ids_data@, *ap_tracking, "root"@) {
                        Some(addr) => r == write_verdict(
                            *old(vm),
                            addr,
                            MaybeRelocatable::Int(Felt252::from_int(floor_root(value@ as int))),
                        ),
                        None => r matches Err(HintError::UnknownIdentifier(n)) && n@ == "root"@,
                    }) && (r is Ok ==> (ids_addr(*old(vm), ids_data@, *ap_tracking, "root"@) matches Some(
                        addr,
                    ) && final(vm).memory.cell(addr) matches Some(MaybeRelocatable::Int(root))
                        && is_isqrt(value@, root@)))
                }
            },
            None => r is Err && *final(vm) == *old(vm),
        },
        ids_integer(*old(vm), ids_data@, *ap_tracking, "value"@) is None ==> (r matches Err(e)
            && integer_fault(*old(vm), ids_data@, *ap_tracking, "value"@, e)),
{
    let mod_value = match get_integer_from_var_name("value", vm, ids_data, ap_tracking) {
        Ok(value) => value,
        Err(e) => {
            return Err(e);
        },
    };
    if mod_value.shr(250).is_positive() {
        return Err(HintError::ValueOutside250BitRange(mod_value));
    }
    let root = mod_value.sqrt();
    proof {
        lemma_floor_root_unique(mod_value@ as int, root@ as int);
        Felt252::lemma_is_from_int(root, floor_root(mod_value@ as int));
    }
    write_felt("root", root, vm, ids_data, ap_tracking)
}

/// Divides `value` by `div` as integers and writes quotient and remainder to
/// `q` and `r`. The divisor must not be zero nor exceed the prime divided by the
/// bound of the range-check builtin.
pub fn unsigned_div_rem(
    vm: &mut VirtualMachine,
    ids_data: &Vec<(String, HintReference)>,
    ap_tracking: &ApTracking,
) -> (r: Result<(), HintError>)
    ensures
        only_wrote(*old(vm), *final(vm)),
        (ids_integer(*old(vm), ids_data@, *ap_tracking, "div"@) is None || ids_integer(
            *old(vm),
            ids_data@,
            *ap_tracking,
            "value"@,
        ) is None || rc_bound(*old(vm)) is None) ==> r is Err && *final(vm) == *old(vm),
        ids_integer(*old(vm), ids_data@, *ap_tracking, "div"@) matches Some(div) && div@ == 0
            ==> r is Err && *final(vm) == *old(vm),
        (ids_integer(*old(vm), ids_data@, *ap_tracking, "div"@) is Some && ids_integer(
            *old(vm),
            ids_data@,
            *ap_tracking,
            "value"@,
        ) is Some && rc_bound(*old(vm)) is Some) ==> {
            let div = ids_integer(*old(vm), ids_data@, *ap_tracking, "div"@).unwrap();
            let value = ids_integer(*old(vm), ids_data@, *ap_tracking, "value"@).unwrap();
            match rc_bound(*old(vm)).unwrap() {
                Some(bound) => if div@ == 0 {
                    r == Err::<(), HintError>(HintError::OutOfValidRange(div, bound))
                } else if bound@ == 0 {
                    r == Err::<(), HintError>(
                        HintError::Internal(VirtualMachineError::Math(MathError::DividedByZero)),
                    )
                } else if div@ > (prime() / bound@) % prime() {
                    r == Err::<(), HintError>(HintError::OutOfValidRange(div, bound))
                } else {
                    two_writes(
                        *old(vm),
                        ids_data@,
                        *ap_tracking,
                        "r"@,
                        Felt252::from_int(value@ as int % div@ as int),
                        "q"@,
                        Felt252::from_int(value@ as int / div@ as int),
                        r,
                    )
                },
                None => if div@ == 0 {
                    r matches Err(HintError::OutOfValidRange(d, limit)) && d == div && limit@
                        == prime() - 1
                } else {
                    two_writes(
                        *old(vm),
                        ids_data@,
                        *ap_tracking,
                        "r"@,
                        Felt252::from_int(value@ as int % div@ as int),
                        "q"@,
                        Felt252::from_int(value@ as int / div@ as int),
                        r,
                    )
                },
            }
        },
        r is Ok ==> {
            &&& ids_integer(*old(vm), ids_data@, *ap_tracking, "div"@) matches Some(div)
            &&& ids_integer(*old(vm), ids_data@, *ap_tracking, "value"@) matches Some(value)
            &&& div@ != 0
            &&& rc_bound(*old(vm)) matches Some(Some(bound)) ==> bound@ != 0 && div@ <= (prime()
                / bound@) % prime()
            &&& ids_addr(*old(vm), ids_data@, *ap_tracking, "r"@) matches Some(r_addr) && final(vm).memory.cell(r_addr) matches Some(MaybeRelocatable::Int(rem)) && rem@ == value@
                % div@
            &&& ids_addr(*final(vm), ids_data@, *ap_tracking, "q"@) matches Some(q_addr)
                && final(vm).memory.cell(q_addr) matches Some(MaybeRelocatable::Int(quot))
                && quot@ == value@ / div@
        },
        ids_integer(*old(vm), ids_data@, *ap_tracking, "div"@) is None ==> (r matches Err(e)
            && integer_fault(*old(vm), ids_data@, *ap_tracking, "div"@, e)),
        r matches Err(e) && (e matches HintError::OutOfValidRange(_, _)
            || e matches HintError::Internal(_)) ==> *final(vm) == *old(vm),
        (ids_integer(*old(vm), ids_data@, *ap_tracking, "div"@) is Some && ids_integer(*old(vm), ids_data@, *ap_tracking, "value"@) is None) ==> (r matches Err(e)
            && integer_fault(*old(vm), ids_data@, *ap_tracking, "value"@, e)),
        (ids_integer(*old(vm), ids_data@, *ap_tracking, "div"@) is Some && ids_integer(*old(vm), ids_data@, *ap_tracking, "value"@) is Some && rc_bound(*old(vm)) is None) ==> r == Err::<(), HintError>(
            HintError::Internal(VirtualMachineError::NoRangeCheckBuiltin),
        ),
{
    let div = match get_integer_from_var_name("div", vm, ids_data, ap_tracking) {
        Ok(div) => div,
        Err(e) => {
            return Err(e);
        },
    };
    let value = match get_integer_from_var_name("value", vm, ids_data, ap_tracking) {
        Ok(value) => value,
        Err(e) => {
            return Err(e);
        },
    };
    let bound = match range_check_bound(vm) {
        Ok(bound) => bound,
        Err(e) => {
            return Err(e);
        },
    };
    match bound {
        Some(builtin_bound) => {
            if div.is_zero() {
                return Err(HintError::OutOfValidRange(div, builtin_bound));
            }
            let limit = match div_prime_by_bound(builtin_bound) {
                Ok(limit) => limit,
                Err(e) => {
                    return Err(HintError::Internal(e));
                },
            };
            if div.gt(&limit) {
                return Err(HintError::OutOfValidRange(div, builtin_bound));
            }
        },
        None => {
            if div.is_zero() {
                return Err(HintError::OutOfValidRange(div, Felt252::max_value()));
            }
        },
    }
    let (q, rem) = value.div_mod_floor(&div);
    proof {
        vstd::arithmetic::div_mod::lemma_small_mod(q@, prime());
        vstd::arithmetic::div_mod::lemma_small_mod(rem@, prime());
        Felt252::lemma_is_from_int(q, value@ as int / div@ as int);
        Felt252::lemma_is_from_int(rem, value@ as int % div@ as int);
    }
    match write_felt("r", rem, vm, ids_data, ap_tracking) {
        Ok(()) => {},
        Err(e) => {
            return Err(e);
        },
    }
    let ghost middle = *vm;
    proof {
        lemma_second_write(*old(vm), middle, ids_data@, *ap_tracking, "r"@, rem, "q"@, q);
    }
    match write_felt("q", q, vm, ids_data, ap_tracking) {
        Ok(()) => {},
        Err(e) => {
            return Err(e);
        },
    }
    proof {
        let r_addr = ids_addr(*old(vm), ids_data@, *ap_tracking, "r"@).unwrap();
        assert(middle.memory.cell(r_addr) == Some(MaybeRelocatable::Int(rem)));
    }
    Ok(())
}

/// Splits `value`, which must not exceed `2^250`, into a high part and its
/// lower 128 bits, and writes them to `high` and `low`.
pub fn assert_250_bit(
    vm: &mut VirtualMachine,
    ids_data: &Vec<(String, HintReference)>,
    ap_tracking: &ApTracking,
) -> (r: Result<(), HintError>)
    ensures
        only_wrote(*old(vm), *final(vm)),
        match ids_integer(*old(vm), ids_data@, *ap_tracking, "value"@) {
            Some(value) => {
                if value@ > 0x400000000000000000000000000000000000000000000000000000000000000nat {
                    r == Err::<(), HintError>(HintError::ValueOutside250BitRange(value)) && *final(vm) == *old(vm)
                } else {
                    two_writes(
                        *old(vm),
                        ids_data@,
                        *ap_tracking,
                        "high"@,
                        Felt252::from_int(value@ as int / two_128() as int),
                        "low"@,
                        Felt252::from_int(value@ as int % two_128() as int),
                        r,
                    ) && (r is Ok ==> {
                        &&& ids_addr(*old(vm), ids_data@, *ap_tracking, "high"@) matches Some(
                            high,
                        ) && final(vm).memory.cell(high) matches Some(MaybeRelocatable::Int(h))
                            && h@ == value@ / two_128()
                        &&& ids_addr(*final(vm), ids_data@, *ap_tracking, "low"@) matches Some(
                            low,
                        ) && final(vm).memory.cell(low) matches Some(MaybeRelocatable::Int(l))
                            && l@ == value@ % two_128()
                    })
                }
            },
            None => r is Err && *final(vm) == *old(vm),
        },
        ids_integer(*old(vm), ids_data@, *ap_tracking, "value"@) is None ==> (r matches Err(e)
            && integer_fault(*old(vm), ids_data@, *ap_tracking, "value"@, e)),
{
    let value = match get_integer_from_var_name("value", vm, ids_data, ap_tracking) {
        Ok(value) => value,
        Err(e) => {
            return Err(e);
        },
    };
    let upper_bound = Felt252::from_words(0x0400_0000_0000_0000_0000_0000_0000_0000u128, 0);
    if value.gt(&upper_bound) {
        return Err(HintError::ValueOutside250BitRange(value));
    }
    let (high, low) = value.split_words();
    proof {
        vstd::arithmetic::div_mod::lemma_small_mod(high@, prime());
        vstd::arithmetic::div_mod::lemma_small_mod(low@, prime());
        Felt252::lemma_is_from_int(high, value@ as int / two_128() as int);
        Felt252::lemma_is_from_int(low, value@ as int % two_128() as int);
    }
    match write_felt("high", high, vm, ids_data, ap_tracking) {
        Ok(()) => {},
        Err(e) => {
            return Err(e);
        },
    }
    let ghost middle = *vm;
    proof {
        lemma_second_write(*old(vm), middle, ids_data@, *ap_tracking, "high"@, high, "low"@, low);
    }
    match write_felt("low", low, vm, ids_data, ap_tracking) {
        Ok(()) => {},
        Err(e) => {
            return Err(e);
        },
    }
    proof {
        let high_addr = ids_addr(*old(vm), ids_data@, *ap_tracking, "high"@).unwrap();
        assert(middle.memory.cell(high_addr) == Some(MaybeRelocatable::Int(high)));
    }
    Ok(())
}

/// The integer with the given sign and magnitude.
pub open spec fn signed(negative: bool, magnitude: nat) -> int {
    if negative {
        -(magnitude as int)
    } else {
        magnitude as int
    }
}

/// Whether `q` and `r` are quotient and remainder of the floored division of
/// `v` by `d`: the remainder has the sign of the divisor and is smaller in
/// magnitude.
pub open spec fn is_floor_div(v: int, d: int, q: int, r: int) -> bool {
    &&& q * d + r == v
    &&& d > 0 ==> 0 <= r < d
    &&& d < 0 ==> d < r <= 0
}

/// Floored division of two field elements read as signed integers. Returns the
/// sign and the magnitude of the quotient, and of the remainder.
pub fn signed_div_mod_floor(value: &Felt252, div: &Felt252) -> (r: (bool, Felt252, bool, Felt252))
    requires
        div@ != 0,
    ensures
        is_floor_div(as_int(value@), as_int(div@), signed(r.0, r.1@), signed(r.2, r.3@)),
        r.1@ <= (prime() - 1) / 2 + 1,
        r.3@ <= (prime() - 1) / 2,
{
    value.note_canonical();
    div.note_canonical();
    let (v_neg, v_mag) = value.to_signed();
    let (d_neg, d_mag) = div.to_signed();
    let (qm, rm) = v_mag.div_rem(&d_mag);
    proof {
        let (v, d) = (v_mag@ as int, d_mag@ as int);
        vstd::arithmetic::div_mod::lemma_fundamental_div_mod(v, d);
        vstd::arithmetic::div_mod::lemma_mod_bound(v, d);
        vstd::arithmetic::div_mod::lemma_div_pos_is_pos(v, d);
        assert(v / d <= v) by (nonlinear_arith)
            requires
                v == d * (v / d) + v % d,
                d >= 1,
                0 <= v % d,
                v / d >= 0,
        ;
        assert(qm@ * d_mag@ + rm@ == v_mag@) by (nonlinear_arith)
            requires
                v == d * (v / d) + v % d,
                qm@ == v / d,
                rm@ == v % d,
                d == d_mag@,
                v == v_mag@,
        ;
    }
    if v_neg == d_neg {
        // the quotient is not negative, the remainder has the sign of both
        proof {
            let (q, d, r, v) = (qm@ as int, d_mag@ as int, rm@ as int, v_mag@ as int);
            assert(q * (-d) + (-r) == -v) by (nonlinear_arith)
                requires
                    q * d + r == v,
            ;
        }
        (false, qm, d_neg && !rm.is_zero(), rm)
    } else if rm.is_zero() {
        proof {
            let (q, d, v) = (qm@ as int, d_mag@ as int, v_mag@ as int);
            assert((-q) * d == -v && (-q) * (-d) == v) by (nonlinear_arith)
                requires
                    q * d == v,
            ;
        }
        (!qm.is_zero(), qm, false, rm)
    } else {
        // the quotient rounds away from zero, the remainder is what is left
        // to the divisor
        let q_mag = qm.add_usize(1);
        let r_mag = d_mag.sub(&rm);
        proof {
            let (q, d, r, v) = (qm@ as int, d_mag@ as int, rm@ as int, v_mag@ as int);
            vstd::arithmetic::div_mod::lemma_small_mod((q + 1) as nat, prime());
            vstd::arithmetic::div_mod::lemma_small_mod((d - r) as nat, prime());
            assert((-(q + 1)) * d + (d - r) == -v && (-(q + 1)) * (-d) + (-(d - r)) == v)
                by (nonlinear_arith)
                requires
                    q * d + r == v,
            ;
        }
        (true, q_mag, d_neg, r_mag)
    }
}

/// Whether `rem` and `biased` are what `signed_div_rem` writes for the given
/// inputs: the remainder of the floored division of `value` by `div`, both read
/// as signed integers, and its quotient plus `bound`.
pub open spec fn signed_div_rem_result(
    value: nat,
    div: nat,
    bound: nat,
    rem: nat,
    biased: nat,
) -> bool {
    exists|q: int|
        #![trigger is_floor_div(as_int(value), as_int(div), q, as_int(rem))]
        is_floor_div(as_int(value), as_int(div), q, as_int(rem)) && biased == (q + bound) % (
        prime() as int)
}

/// The quotient of `v` by `d`, rounded down.
pub open spec fn floor_quotient(v: int, d: int) -> int {
    if d > 0 {
        v / d
    } else {
        (-v) / (-d)
    }
}

/// What the floored division of `v` by `d` leaves.
pub open spec fn floor_remainder(v: int, d: int) -> int {
    v - floor_quotient(v, d) * d
}

/// The magnitude of an integer.
pub open spec fn magnitude(v: int) -> int {
    if v < 0 {
        -v
    } else {
        v
    }
}

/// A floored division has one quotient and one remainder.
pub proof fn lemma_floor_div_unique(v: int, d: int, q: int, r: int)
    requires
        d != 0,
        is_floor_div(v, d, q, r),
    ensures
        q == floor_quotient(v, d),
        r == floor_remainder(v, d),
{
    if d > 0 {
        vstd::arithmetic::div_mod::lemma_fundamental_div_mod_converse(v, d, q, r);
    } else {
        assert(-v == q * (-d) + (-r)) by (nonlinear_arith)
            requires
                q * d + r == v,
        ;
        vstd::arithmetic::div_mod::lemma_fundamental_div_mod_converse(-v, -d, q, -r);
    }
}

/// Whether `r` is what `signed_div_rem` comes to once its inputs are read and
/// the divisor and the bound are in range: the error of a quotient that exceeds
/// `bound` in magnitude, else the writes of the remainder to `r` and of the
/// quotient plus `bound` to `biased_q`.
pub open spec fn signed_div_rem_writes(
    vm: VirtualMachine,
    ids_data: Seq<(String, HintReference)>,
    ap_tracking: ApTracking,
    value: Felt252,
    div: Felt252,
    bound: Felt252,
    r: Result<(), HintError>,
) -> bool {
    let q = floor_quotient(as_int(value@), as_int(div@));
    let rem = floor_remainder(as_int(value@), as_int(div@));
    if magnitude(q) > magnitude(as_int(bound@)) {
        r == Err::<(), HintError>(HintError::OutOfValidRange(Felt252::from_int(q), bound))
    } else {
        two_writes(
            vm,
            ids_data,
            ap_tracking,
            "r"@,
            Felt252::from_int(rem),
            "biased_q"@,
            Felt252::from_int(q + bound@),
            r,
        )
    }
}

/// The remainder and the biased quotient of `signed_div_rem`. Fails where the
/// quotient exceeds `bound` in magnitude.
pub fn signed_div_rem_values(value: &Felt252, div: &Felt252, bound: &Felt252) -> (r: Result<
    (Felt252, Felt252),
    HintError,
>)
    requires
        div@ != 0,
    ensures
        r matches Ok((rem, biased)) ==> signed_div_rem_result(
            value@,
            div@,
            bound@,
            rem@,
            biased@,
        ),
        r matches Err(e) ==> e matches HintError::OutOfValidRange(_, b) && b == *bound,
        ({
            let q = floor_quotient(as_int(value@), as_int(div@));
            let rem = floor_remainder(as_int(value@), as_int(div@));
            if magnitude(q) > magnitude(as_int(bound@)) {
                r == Err::<(Felt252, Felt252), HintError>(
                    HintError::OutOfValidRange(Felt252::from_int(q), *bound),
                )
            } else {
                r == Ok::<(Felt252, Felt252), HintError>(
                    (Felt252::from_int(rem), Felt252::from_int(q + bound@)),
                )
            }
        }),
{
    div.note_canonical();
    let (q_neg, q_mag, r_neg, r_mag) = signed_div_mod_floor(value, div);
    let (_, bound_mag) = bound.to_signed();
    if bound_mag.lt(&q_mag) {
        let shown = Felt252::from_signed(q_neg, &q_mag);
        proof {
            lemma_floor_div_unique(
                as_int(value@),
                as_int(div@),
                signed(q_neg, q_mag@),
                signed(r_neg, r_mag@),
            );
            Felt252::lemma_is_from_int(shown, signed(q_neg, q_mag@));
        }
        return Err(HintError::OutOfValidRange(shown, *bound));
    }
    let q = Felt252::from_signed(q_neg, &q_mag);
    let rem = Felt252::from_signed(r_neg, &r_mag);
    let biased_q = q.add(bound);
    bound.note_canonical();
    proof {
        let p = prime() as int;
        let qi = signed(q_neg, q_mag@);
        let ri = signed(r_neg, r_mag@);
        lemma_as_int_of_residue(ri);
        vstd::arithmetic::div_mod::lemma_add_mod_noop(qi, bound@ as int, p);
        vstd::arithmetic::div_mod::lemma_small_mod(bound@, prime());
        assert(is_floor_div(as_int(value@), as_int(div@), qi, as_int(rem@)));
        lemma_floor_div_unique(as_int(value@), as_int(div@), qi, ri);
        Felt252::lemma_is_from_int(rem, ri);
        Felt252::lemma_is_from_int(biased_q, qi + bound@);
    }
    Ok((rem, biased_q))
}

/// Divides `value` by `div` as signed integers, rounding down, and writes the
/// remainder to `r` and the quotient plus `bound` to `biased_q`. The divisor
/// must not be zero nor exceed the prime divided by the bound of the
/// range-check builtin; `bound` must not exceed half that bound; and the
/// quotient must not exceed `bound` in magnitude.
pub fn signed_div_rem(
    vm: &mut VirtualMachine,
    ids_data: &Vec<(String, HintReference)>,
    ap_tracking: &ApTracking,
) -> (r: Result<(), HintError>)
    ensures
        only_wrote(*old(vm), *final(vm)),
        (ids_integer(*old(vm), ids_data@, *ap_tracking, "div"@) is None || ids_integer(
            *old(vm),
            ids_data@,
            *ap_tracking,
            "value"@,
        ) is None || ids_integer(*old(vm), ids_data@, *ap_tracking, "bound"@) is None
            || rc_bound(*old(vm)) is None) ==> r is Err && *final(vm) == *old(vm),
        ids_integer(*old(vm), ids_data@, *ap_tracking, "div"@) matches Some(div) && div@ == 0
            ==> r is Err && *final(vm) == *old(vm),
        (ids_integer(*old(vm), ids_data@, *ap_tracking, "div"@) is Some && ids_integer(
            *old(vm),
            ids_data@,
            *ap_tracking,
            "value"@,
        ) is Some && ids_integer(*old(vm), ids_data@, *ap_tracking, "bound"@) is Some
            && rc_bound(*old(vm)) is Some) ==> {
            let div = ids_integer(*old(vm), ids_data@, *ap_tracking, "div"@).unwrap();
            let value = ids_integer(*old(vm), ids_data@, *ap_tracking, "value"@).unwrap();
            let bound = ids_integer(*old(vm), ids_data@, *ap_tracking, "bound"@).unwrap();
            match rc_bound(*old(vm)).unwrap() {
                Some(rc) => if div@ == 0 {
                    r == Err::<(), HintError>(HintError::OutOfValidRange(div, rc))
                } else if rc@ == 0 {
                    r == Err::<(), HintError>(
                        HintError::Internal(VirtualMachineError::Math(MathError::DividedByZero)),
                    )
                } else if div@ > (prime() / rc@) % prime() {
                    r == Err::<(), HintError>(HintError::OutOfValidRange(div, rc))
                } else if bound@ > rc@ / 2 {
                    r matches Err(HintError::OutOfValidRange(b, half)) && b == bound && half@
                        == rc@ / 2
                } else {
                    signed_div_rem_writes(*old(vm), ids_data@, *ap_tracking, value, div, bound, r)
                },
                None => if div@ == 0 {
                    r matches Err(HintError::OutOfValidRange(d, limit)) && d == div && limit@
                        == prime() - 1
                } else {
                    signed_div_rem_writes(*old(vm), ids_data@, *ap_tracking, value, div, bound, r)
                },
            }
        },
        r is Ok ==> {
            &&& ids_integer(*old(vm), ids_data@, *ap_tracking, "div"@) matches Some(div)
            &&& ids_integer(*old(vm), ids_data@, *ap_tracking, "value"@) matches Some(value)
            &&& ids_integer(*old(vm), ids_data@, *ap_tracking, "bound"@) matches Some(bound)
            &&& div@ != 0
            &&& ids_addr(*old(vm), ids_data@, *ap_tracking, "r"@) matches Some(r_addr)
            &&& final(vm).memory.cell(r_addr) matches Some(MaybeRelocatable::Int(rem))
            &&& ids_addr(*final(vm), ids_data@, *ap_tracking, "biased_q"@) matches Some(q_addr)
            &&& final(vm).memory.cell(q_addr) matches Some(MaybeRelocatable::Int(biased))
            &&& signed_div_rem_result(value@, div@, bound@, rem@, biased@)
        },
        ids_integer(*old(vm), ids_data@, *ap_tracking, "div"@) is None ==> (r matches Err(e)
            && integer_fault(*old(vm), ids_data@, *ap_tracking, "div"@, e)),
        r matches Err(e) && (e matches HintError::OutOfValidRange(_, _)
            || e matches HintError::Internal(_)) ==> *final(vm) == *old(vm),
        (ids_integer(*old(vm), ids_data@, *ap_tracking, "div"@) is Some && ids_integer(*old(vm), ids_data@, *ap_tracking, "value"@) is None) ==> (r matches Err(e)
            && integer_fault(*old(vm), ids_data@, *ap_tracking, "value"@, e)),
        (ids_integer(*old(vm), ids_data@, *ap_tracking, "div"@) is Some && ids_integer(*old(vm), ids_data@, *ap_tracking, "value"@) is Some && ids_integer(*old(vm), ids_data@, *ap_tracking, "bound"@) is None) ==> (r matches Err(e)
            && integer_fault(*old(vm), ids_data@, *ap_tracking, "bound"@, e)),
        (ids_integer(*old(vm), ids_data@, *ap_tracking, "div"@) is Some && ids_integer(*old(vm), ids_data@, *ap_tracking, "value"@) is Some && ids_integer(*old(vm), ids_data@, *ap_tracking, "bound"@) is Some && rc_bound(*old(vm)) is None) ==> r == Err::<(), HintError>(
            HintError::Internal(VirtualMachineError::NoRangeCheckBuiltin),
        ),
{
    let div = match get_integer_from_var_name("div", vm, ids_data, ap_tracking) {
        Ok(div) => div,
        Err(e) => {
            return Err(e);
        },
    };
    let value = match get_integer_from_var_name("value", vm, ids_data, ap_tracking) {
        Ok(value) => value,
        Err(e) => {
            return Err(e);
        },
    };
    let bound = match get_integer_from_var_name("bound", vm, ids_data, ap_tracking) {
        Ok(bound) => bound,
        Err(e) => {
            return Err(e);
        },
    };
    let builtin_bound = match range_check_bound(vm) {
        Ok(b) => b,
        Err(e) => {
            return Err(e);
        },
    };
    proof {
        vstd::arithmetic::power::lemma_pow1(2);
    }
    match builtin_bound {
        Some(rc) => {
            if div.is_zero() {
                return Err(HintError::OutOfValidRange(div, rc));
            }
            let limit = match div_prime_by_bound(rc) {
                Ok(limit) => limit,
                Err(e) => {
                    return Err(HintError::Internal(e));
                },
            };
            if div.gt(&limit) {
                return Err(HintError::OutOfValidRange(div, rc));
            }
            if bound.gt(&rc.shr(1)) {
                return Err(HintError::OutOfValidRange(bound, rc.shr(1)));
            }
        },
        None => {
            if div.is_zero() {
                return Err(HintError::OutOfValidRange(div, Felt252::max_value()));
            }
        },
    }
    let (rem, biased_q) = match signed_div_rem_values(&value, &div, &bound) {
        Ok(values) => values,
        Err(e) => {
            return Err(e);
        },
    };
    match write_felt("r", rem, vm, ids_data, ap_tracking) {
        Ok(()) => {},
        Err(e) => {
            return Err(e);
        },
    }
    let ghost middle = *vm;
    proof {
        lemma_second_write(
            *old(vm),
            middle,
            ids_data@,
            *ap_tracking,
            "r"@,
            rem,
            "biased_q"@,
            biased_q,
        );
    }
    match write_felt("biased_q", biased_q, vm, ids_data, ap_tracking) {
        Ok(()) => {},
        Err(e) => {
            return Err(e);
        },
    }
    proof {
        let r_addr = ids_addr(*old(vm), ids_data@, *ap_tracking, "r"@).unwrap();
        assert(middle.memory.cell(r_addr) == Some(MaybeRelocatable::Int(rem)));
    }
    Ok(())
}

/// A small integer made into a residue is read back as itself.
pub proof fn lemma_as_int_of_residue(v: int)
    requires
        -((prime() - 1) / 2) <= v <= (prime() - 1) / 2,
    ensures
        as_int((v % (prime() as int)) as nat) == v,
{
    let p = prime() as int;
    if v >= 0 {
        vstd::arithmetic::div_mod::lemma_small_mod(v as nat, prime());
    } else {
        vstd::arithmetic::div_mod::lemma_fundamental_div_mod_converse(v, p, -1, v + p);
    }
}

/// The exponent of Euler's criterion: half of the prime less one.
pub open spec fn euler_exponent() -> nat {
    ((prime() - 1) / 2) as nat
}

/// The root that `is_quad_residue` writes for `x`: zero and one are their own
/// roots; where Euler's criterion tells that `x` is a square, the root that
/// `sqrt` finds for `x`, else the one it finds for `x / 3`.
pub open spec fn quad_root(x: nat) -> Option<nat> {
    if x <= 1 {
        Some(x)
    } else if crate::felt::field_pow(x, euler_exponent()) == 1 {
        crate::math_utils::found_root(x)
    } else {
        crate::math_utils::found_root(crate::felt::big::field_div(x, 3))
    }
}

/// Writes to `y` a square root of `x` where `x` is a square, else a square root
/// of `x / 3`; zero and one are their own roots. Whether `x` is a square is
/// told by Euler's criterion.
pub fn is_quad_residue(
    vm: &mut VirtualMachine,
    ids_data: &Vec<(String, HintReference)>,
    ap_tracking: &ApTracking,
) -> (r: Result<(), HintError>)
    ensures
        only_wrote(*old(vm), *final(vm)),
        ids_integer(*old(vm), ids_data@, *ap_tracking, "x"@) is None ==> r is Err && *final(vm)
            == *old(vm),
        match ids_integer(*old(vm), ids_data@, *ap_tracking, "x"@) {
            Some(x) => match quad_root(x@) {
                Some(y) => match ids_addr(*old(vm), ids_data@, *ap_tracking, "y"@) {
                    Some(addr) => r == write_verdict(
                        *old(vm),
                        addr,
                        MaybeRelocatable::Int(Felt252::from_int(y as int)),
                    ) && written(
                        *old(vm),
                        *final(vm),
                        addr,
                        MaybeRelocatable::Int(Felt252::from_int(y as int)),
                    ),
                    None => (r matches Err(HintError::UnknownIdentifier(n)) && n@ == "y"@)
                        && *final(vm) == *old(vm),
                },
                None => r == Err::<(), HintError>(HintError::Math(MathError::FailedToGetSqrt(x)))
                    && *final(vm) == *old(vm),
            },
            None => true,
        },
        r is Ok ==> {
            &&& ids_integer(*old(vm), ids_data@, *ap_tracking, "x"@) matches Some(x)
            &&& ids_addr(*old(vm), ids_data@, *ap_tracking, "y"@) matches Some(addr)
            &&& final(vm).memory.cell(addr) matches Some(MaybeRelocatable::Int(y))
            &&& if x@ == 0 || x@ == 1 {
                y == x
            } else if crate::felt::field_pow(x@, euler_exponent()) == 1 {
                crate::felt::field_mul(y@, y@) == x@
            } else {
                crate::felt::field_mul(crate::felt::field_mul(y@, y@), 3) == x@
            }
        },
        ids_integer(*old(vm), ids_data@, *ap_tracking, "x"@) is None ==> (r matches Err(e)
            && integer_fault(*old(vm), ids_data@, *ap_tracking, "x"@, e)),
{
    let x = match get_integer_from_var_name("x", vm, ids_data, ap_tracking) {
        Ok(x) => x,
        Err(e) => {
            return Err(e);
        },
    };
    match find_quad_root(&x) {
        Some(y) => {
            proof {
                Felt252::lemma_from_int(y@ as int);
            }
            write_felt("y", y, vm, ids_data, ap_tracking)
        },
        None => Err(HintError::Math(MathError::FailedToGetSqrt(x))),
    }
}

/// The root that `is_quad_residue` writes for `x`: see `quad_root`.
pub fn find_quad_root(x: &Felt252) -> (r: Option<Felt252>)
    ensures
        match quad_root(x@) {
            Some(y) => r == Some(Felt252::from_int(y as int)),
            None => r is None,
        },
        r matches Some(y) ==> if x@ == 0 || x@ == 1 {
            y == *x
        } else if crate::felt::field_pow(x@, euler_exponent()) == 1 {
            crate::felt::field_mul(y@, y@) == x@
        } else {
            crate::felt::field_mul(crate::felt::field_mul(y@, y@), 3) == x@
        },
{
    x.note_canonical();
    if x.is_zero() || x.is_one() {
        proof {
            Felt252::lemma_from_int_of_view(*x);
        }
        return Some(*x);
    }
    let exponent = Felt252::max_value().shr(1);
    proof {
        vstd::arithmetic::power::lemma_pow1(2);
    }
    if x.pow_felt(&exponent).is_one() {
        crate::math_utils::sqrt(x)
    } else {
        match x.div(&Felt252::constant(3)) {
            Ok(third) => {
                let root = crate::math_utils::sqrt(&third);
                proof {
                    if root is Some {
                        // (y * y) * 3 == third * 3 == x
                        crate::felt::laws::law_mul_commutative(third@, 3);
                    }
                }
                root
            },
            Err(_) => None,
        }
    }
}

} // verus!
