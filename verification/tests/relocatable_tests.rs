use cairo_vm::felt::Felt252;
use cairo_vm::types::errors::math_errors::MathError;
use cairo_vm::types::errors::memory_errors::MemoryError;
use cairo_vm::types::relocatable::{relocate_value, MaybeRelocatable, Relocatable};

fn felt_str(text: &str) -> Felt252 {
    Felt252::parse_bytes(text.as_bytes(), 10).expect("a decimal number")
}

fn felt_str_radix(text: &str, radix: u32) -> Felt252 {
    Felt252::parse_bytes(text.as_bytes(), radix).expect("a number in the radix")
}

#[test]
fn add_bigint_to_int() {
    let addr = MaybeRelocatable::from(Felt252::new(7i32));
    let added_addr = addr.add_int(&Felt252::new(2i32));
    assert_eq!(added_addr, Ok(MaybeRelocatable::Int(Felt252::new(9))));
}

#[test]
fn add_usize_to_int() {
    let addr = MaybeRelocatable::from(Felt252::new(7_i32));
    let added_addr = addr.add_usize(2).unwrap();
    assert_eq!(MaybeRelocatable::Int(Felt252::new(9)), added_addr);
}

#[test]
fn add_bigint_to_relocatable() {
    let addr = MaybeRelocatable::RelocatableValue(Relocatable::from((7, 65)));
    let added_addr = addr.add_int(&Felt252::new(2));
    assert_eq!(
        added_addr,
        Ok(MaybeRelocatable::RelocatableValue(Relocatable {
            segment_index: 7,
            offset: 67
        }))
    );
}

#[test]
fn add_int_mod_offset_exceeded() {
    let addr = MaybeRelocatable::from((0, 0));
    let error = addr.add_int(&felt_str("18446744073709551616"));
    assert_eq!(
        error,
        Err(MathError::RelocatableAddFelt252OffsetExceeded(
            Relocatable::from((0, 0)),
            felt_str("18446744073709551616")
        ))
    );
}

#[test]
fn add_usize_to_relocatable() {
    let addr = MaybeRelocatable::RelocatableValue(Relocatable::from((7, 65)));
    let added_addr = addr.add_usize(2);
    assert_eq!(
        added_addr,
        Ok(MaybeRelocatable::RelocatableValue(Relocatable {
            segment_index: 7,
            offset: 67
        }))
    );
}

#[test]
fn add_bigint_to_int_prime_mod() {
    let addr = MaybeRelocatable::Int(felt_str_radix("800000000000011000000000000000000000000000000000000000000000004", 16));
    let added_addr = addr.add_int(&Felt252::one());
    assert_eq!(added_addr, Ok(MaybeRelocatable::Int(Felt252::new(4))));
}

#[test]
fn add_bigint_to_relocatable_prime() {
    let addr = MaybeRelocatable::from((1, 9));
    let added_addr = addr.add_int(&felt_str(
        "3618502788666131213697322783095070105623107215331596699973092056135872020481"
    ));
    assert_eq!(
        added_addr,
        Ok(MaybeRelocatable::RelocatableValue(Relocatable {
            segment_index: 1,
            offset: 9
        }))
    );
}

#[test]
fn add_int_to_int() {
    let addr_a = &MaybeRelocatable::from(felt_str(
        "3618502788666131213697322783095070105623107215331596699973092056135872020488"
    ));
    let addr_b = &MaybeRelocatable::from(Felt252::new(17_i32));
    let added_addr = addr_a.add(addr_b);
    assert_eq!(added_addr, Ok(MaybeRelocatable::Int(Felt252::new(24))));
}

#[test]
fn add_relocatable_to_relocatable_should_fail() {
    let addr_a = &MaybeRelocatable::from((7, 5));
    let addr_b = &MaybeRelocatable::RelocatableValue(Relocatable::from((7, 10)));
    let error = addr_a.add(addr_b);
    assert_eq!(
        error,
        Err(MathError::RelocatableAdd(
            Relocatable::from((7, 5)),
            Relocatable::from((7, 10))
        ))
    );
}

#[test]
fn add_int_to_relocatable() {
    let addr_a = &MaybeRelocatable::from((7, 7));
    let addr_b = &MaybeRelocatable::from(Felt252::new(10));
    let added_addr = addr_a.add(addr_b);
    assert_eq!(
        added_addr,
        Ok(MaybeRelocatable::RelocatableValue(Relocatable {
            segment_index: 7,
            offset: 17
        }))
    );
}

#[test]
fn add_relocatable_to_int() {
    let addr_a = &MaybeRelocatable::from(Felt252::new(10_i32));
    let addr_b = &MaybeRelocatable::RelocatableValue(Relocatable::from((7, 7)));
    let added_addr = addr_a.add(addr_b);
    assert_eq!(
        added_addr,
        Ok(MaybeRelocatable::RelocatableValue(Relocatable {
            segment_index: 7,
            offset: 17
        }))
    );
}

#[test]
fn add_int_to_relocatable_prime() {
    let addr_a = &MaybeRelocatable::from((7, 14));
    let addr_b = &MaybeRelocatable::Int(felt_str_radix("800000000000011000000000000000000000000000000000000000000000001", 16));
    let added_addr = addr_a.add(addr_b);
    assert_eq!(
        added_addr,
        Ok(MaybeRelocatable::RelocatableValue(Relocatable {
            segment_index: 7,
            offset: 14
        }))
    );
}

#[test]
fn add_int_rel_int_offset_exceeded() {
    let addr = MaybeRelocatable::from((0, 0));
    let error = addr.add(&MaybeRelocatable::from(felt_str("18446744073709551616")));
    assert_eq!(
        error,
        Err(MathError::RelocatableAddFelt252OffsetExceeded(
            Relocatable::from((0, 0)),
            felt_str("18446744073709551616")
        ))
    );
}

#[test]
fn add_int_int_rel_offset_exceeded() {
    let addr = MaybeRelocatable::Int(felt_str("18446744073709551616"));
    let relocatable = Relocatable {
        offset: 0,
        segment_index: 0,
    };
    let error = addr.add(&MaybeRelocatable::RelocatableValue(relocatable));
    assert_eq!(
        error,
        Err(MathError::RelocatableAddFelt252OffsetExceeded(
            Relocatable::from((0, 0)),
            felt_str("18446744073709551616")
        ))
    );
}

#[test]
fn sub_int_from_int() {
    let addr_a = &MaybeRelocatable::from(Felt252::new(7));
    let addr_b = &MaybeRelocatable::from(Felt252::new(5));
    let sub_addr = addr_a.sub(addr_b);
    assert_eq!(sub_addr, Ok(MaybeRelocatable::Int(Felt252::new(2))));
}

#[test]
fn sub_relocatable_from_relocatable_same_offset() {
    let addr_a = &MaybeRelocatable::from((7, 17));
    let addr_b = &MaybeRelocatable::from((7, 7));
    let sub_addr = addr_a.sub(addr_b);
    assert_eq!(sub_addr, Ok(MaybeRelocatable::Int(Felt252::new(10))));
}

#[test]
fn sub_relocatable_from_relocatable_diff_offset() {
    let addr_a = &MaybeRelocatable::from((7, 17));
    let addr_b = &MaybeRelocatable::from((8, 7));
    let error = addr_a.sub(addr_b);
    assert_eq!(
        error,
        Err(MathError::RelocatableSubDiffIndex(
            Relocatable::from((7, 17)),
            Relocatable::from((8, 7))
        ))
    );
}

#[test]
fn sub_int_addr_ref_from_relocatable_addr_ref() {
    let addr_a = &MaybeRelocatable::from((7, 17));
    let addr_b = &MaybeRelocatable::from(Felt252::new(5_i32));
    let addr_c = addr_a.sub(addr_b);
    assert_eq!(addr_c, Ok(MaybeRelocatable::from((7, 12))));
}

#[test]
fn sub_rel_to_int_error() {
    assert_eq!(
        MaybeRelocatable::from(Felt252::new(7_i32)).sub(&MaybeRelocatable::from((7, 10))),
        Err(MathError::SubRelocatableFromInt(
            Felt252::new(7_i32),
            Relocatable::from((7, 10))
        ))
    );
}

#[test]
fn divmod_working() {
    let value = &MaybeRelocatable::from(Felt252::new(10));
    let div = &MaybeRelocatable::from(Felt252::new(3));
    let (q, r) = value.divmod(div).expect("Unexpected error in divmod");
    assert_eq!(
        q,
        MaybeRelocatable::from(Felt252::new(10) / Felt252::new(3))
    );
    assert_eq!(r, MaybeRelocatable::from(Felt252::zero()));
}

#[test]
fn divmod_bad_type() {
    let value = &MaybeRelocatable::from(Felt252::new(10));
    let div = &MaybeRelocatable::from((2, 7));
    assert_eq!(
        value.divmod(div),
        Err(MathError::DivModWrongType(
            MaybeRelocatable::from(Felt252::new(10)),
            MaybeRelocatable::from((2, 7))
        ))
    );
}

#[test]
fn relocate_relocatable_value() {
    let value = MaybeRelocatable::from((2, 7));
    let relocation_table = vec![1, 2, 5];
    assert_eq!(
        relocate_value(value, &relocation_table),
        Ok(Felt252::new(12))
    );
}

#[test]
fn relocate_relocatable_in_temp_segment_value() {
    let value = MaybeRelocatable::from((-1, 7));
    let relocation_table = vec![1, 2, 5];
    assert_eq!(
        relocate_value(value, &relocation_table),
        Err(MemoryError::TemporarySegmentInRelocation(-1)),
    );
}

#[test]
fn relocate_relocatable_in_temp_segment_value_with_offset() {
    let value = MaybeRelocatable::from((-1, 7));
    let relocation_table = vec![1, 2, 5];
    assert_eq!(
        relocate_value(value, &relocation_table),
        Err(MemoryError::TemporarySegmentInRelocation(-1)),
    );
}

#[test]
fn relocate_relocatable_in_temp_segment_value_error() {
    let value = MaybeRelocatable::from((-1, 7));
    let relocation_table = vec![1, 2, 5];
    assert_eq!(
        relocate_value(value, &relocation_table),
        Err(MemoryError::TemporarySegmentInRelocation(-1))
    );
}

#[test]
fn relocate_int_value() {
    let value = MaybeRelocatable::from(Felt252::new(7));
    let relocation_table = vec![1, 2, 5];
    assert_eq!(
        relocate_value(value, &relocation_table),
        Ok(Felt252::new(7))
    );
}

#[test]
fn relocate_relocatable_value_no_relocation() {
    let value = MaybeRelocatable::from((2, 7));
    let relocation_table = vec![1, 2];
    assert_eq!(
        relocate_value(value, &relocation_table),
        Err(MemoryError::Relocation)
    );
}

#[test]
fn relocatable_add_int() {
    assert_eq!(
        Relocatable::from((1, 2)) + &Felt252::new(4),
        Ok(Relocatable::from((1, 6)))
    );
    assert_eq!(
        Relocatable::from((3, 2)) + &Felt252::zero(),
        Ok(Relocatable::from((3, 2)))
    );
}

#[test]
fn relocatable_add_int_mod_offset_exceeded_error() {
    assert_eq!(
        Relocatable::from((0, 0)) + &(Felt252::new(usize::MAX) + 1_usize),
        Err(MathError::RelocatableAddFelt252OffsetExceeded(
            Relocatable::from((0, 0)),
            Felt252::new(usize::MAX) + 1_usize
        ))
    );
}

#[test]
fn relocatable_add_i32() {
    let reloc = Relocatable::from((1, 5));

    assert_eq!(reloc + 3, Ok(Relocatable::from((1, 8))));
    assert_eq!(reloc + (-3), Ok(Relocatable::from((1, 2))));
}

#[test]
fn relocatable_add_i32_with_overflow() {
    let reloc = Relocatable::from((1, 1));

    assert_eq!(
        reloc + (-3),
        Err(MathError::RelocatableSubNegOffset(Relocatable::from((1, 1)), 3))
    );
}

#[test]
fn mayberelocatable_try_into_reloctable() {
    let address = MaybeRelocatable::from((1, 2));
    assert_eq!(Ok(Relocatable::from((1, 2))), address.try_into());

    let value = MaybeRelocatable::from(Felt252::new(1));
    let err: Result<Relocatable, _> = value.try_into();
    assert_eq!(Err(MemoryError::AddressNotRelocatable), err)
}

#[test]
fn relocatable_sub_rel_test() {
    let reloc = Relocatable::from((7, 6));
    assert_eq!(reloc - Relocatable::from((7, 5)), Ok(1));
    assert_eq!(
        reloc - Relocatable::from((7, 9)),
        Err(MathError::RelocatableSubNegOffset(Relocatable::from((7, 6)), 9))
    );
}

#[test]
fn sub_rel_different_indexes() {
    let a = Relocatable::from((7, 6));
    let b = Relocatable::from((8, 6));
    assert_eq!(a - b, Err(MathError::RelocatableSubDiffIndex(a, b)));
}

#[test]
fn add_maybe_mod_ok() {
    assert_eq!(
        Relocatable::from((1, 0)) + &MaybeRelocatable::from(Felt252::new(2)),
        Ok(Relocatable::from((1, 2)))
    );
    assert_eq!(
        Relocatable::from((0, 29)) + &MaybeRelocatable::from(Felt252::new(100)),
        Ok(Relocatable::from((0, 129)))
    );
    assert_eq!(
        Relocatable::from((2, 12)) + &MaybeRelocatable::from(Felt252::new(104)),
        Ok(Relocatable::from((2, 116)))
    );
    assert_eq!(
        Relocatable::from((1, 0)) + &MaybeRelocatable::from(Felt252::new(0)),
        Ok(Relocatable::from((1, 0)))
    );
    assert_eq!(
        Relocatable::from((1, 2)) + &MaybeRelocatable::from(Felt252::new(71)),
        Ok(Relocatable::from((1, 73)))
    );
}

#[test]
fn add_maybe_mod_add_two_relocatable_error() {
    assert_eq!(
        Relocatable::from((1, 0)) + &MaybeRelocatable::from((1, 2)),
        Err(MathError::RelocatableAdd(
            Relocatable::from((1, 0)),
            Relocatable::from((1, 2))
        ))
    );
}

#[test]
fn add_maybe_mod_offset_exceeded_error() {
    assert_eq!(
        Relocatable::from((1, 0)) + &MaybeRelocatable::from(Felt252::new(usize::MAX as i128 + 1)),
        Err(MathError::RelocatableAddFelt252OffsetExceeded(
            Relocatable::from((1, 0)),
            Felt252::new(usize::MAX) + 1_usize
        ))
    );
}

#[test]
fn get_relocatable_test() {
    assert_eq!(
        MaybeRelocatable::from((1, 2)).get_relocatable(),
        Some(Relocatable::from((1, 2)))
    );
    assert_eq!(MaybeRelocatable::from(Felt252::new(3)).get_relocatable(), None)
}

#[test]
fn relocatable_display() {
    assert_eq!(
        Relocatable::from((1, 0)).to_text(),
        String::from("1:0")
    )
}

#[test]
fn maybe_relocatable_relocatable_display() {
    assert_eq!(
        MaybeRelocatable::from((1, 0)).to_text(),
        String::from("1:0")
    )
}

#[test]
fn maybe_relocatable_int_display() {
    assert_eq!(
        MaybeRelocatable::from(Felt252::new(6)).to_text(),
        String::from("6")
    )
}

#[test]
fn relocatable_add_assign_usize() {
    let mut addr = Relocatable::from((1, 0));
    addr = (addr + 1_usize).unwrap();
    assert_eq!(addr, Relocatable::from((1, 1)))
}

#[test]
fn an_element_moves_an_address_forward_only() {
    let start = Relocatable::from((2, 10));
    assert_eq!(start.add_int(&Felt252::new(5)), Ok(Relocatable::from((2, 15))));
    assert_eq!(start.add_int(&Felt252::new(0)), Ok(start));
    let minus_one = Felt252::new(-1);
    assert_eq!(
        start.add_int(&minus_one),
        Err(MathError::RelocatableAddFelt252OffsetExceeded(start, minus_one))
    );
    let top = Relocatable::from((2, usize::MAX));
    assert_eq!(
        top.add_int(&Felt252::new(1)),
        Err(MathError::RelocatableAddFelt252OffsetExceeded(top, Felt252::new(1)))
    );
    assert_eq!(
        MaybeRelocatable::from((2, 10)).add(&MaybeRelocatable::from(minus_one)),
        Err(MathError::RelocatableAddFelt252OffsetExceeded(start, minus_one))
    );
    assert_eq!(
        MaybeRelocatable::from(minus_one).add(&MaybeRelocatable::from((2, 10))),
        Err(MathError::RelocatableAddFelt252OffsetExceeded(start, minus_one))
    );
}

#[test]
fn an_element_moves_an_address_back_within_its_segment() {
    let start = MaybeRelocatable::from((2, 10));
    assert_eq!(
        start.sub(&MaybeRelocatable::from(Felt252::new(10))),
        Ok(MaybeRelocatable::from((2, 0)))
    );
    assert_eq!(
        start.sub(&MaybeRelocatable::from(Felt252::new(11))),
        Err(MathError::RelocatableAddFelt252OffsetExceeded(
            Relocatable::from((2, 10)),
            Felt252::new(11)
        ))
    );
    assert_eq!(
        start.sub(&MaybeRelocatable::from(Felt252::new(-1))),
        Err(MathError::RelocatableAddFelt252OffsetExceeded(
            Relocatable::from((2, 10)),
            Felt252::new(-1)
        ))
    );
}
