use cairo_vm::felt::Felt252;
use cairo_vm::types::errors::memory_errors::MemoryError;
use cairo_vm::types::relocatable::{MaybeRelocatable, Relocatable};
use cairo_vm::vm::runners::builtin_runner::RangeCheckBuiltinRunner;
use cairo_vm::vm::vm_memory::memory::{Memory, ValidationRule};
use cairo_vm::vm::vm_memory::memory_segments::MemorySegmentManager;

fn num(value: i128) -> MaybeRelocatable {
    MaybeRelocatable::Int(Felt252::new(value))
}

fn two_pow_128() -> Felt252 {
    Felt252::new(1) << 128_u32
}

fn range_checked_memory() -> Memory {
    let mut memory = Memory::new();
    let mut segments = MemorySegmentManager::new();
    let mut builtin = RangeCheckBuiltinRunner::new(8, 8);
    builtin.initialize_segments(&mut segments, &mut memory);
    builtin.add_validation_rule(&mut memory).unwrap();
    memory
}

#[test]
fn range_check_refuses_two_pow_128() {
    let mut memory = range_checked_memory();
    assert_eq!(
        memory.insert(Relocatable::from((0, 0)), MaybeRelocatable::Int(two_pow_128())),
        Err(MemoryError::NumOutOfBounds)
    );
    assert!(memory.validated_addresses.is_empty());
}

#[test]
fn range_check_accepts_two_pow_128_minus_one() {
    let mut memory = range_checked_memory();
    let value = MaybeRelocatable::Int(two_pow_128() - Felt252::one());
    assert_eq!(value, MaybeRelocatable::Int(Felt252::new(u128::MAX)));
    assert_eq!(memory.insert(Relocatable::from((0, 0)), value), Ok(()));
    assert_eq!(memory.get(&Relocatable::from((0, 0))), Some(value));
    assert_eq!(memory.validated_addresses, vec![Relocatable::from((0, 0))]);
}

#[test]
fn range_check_refuses_negative_numbers() {
    let mut memory = range_checked_memory();
    assert_eq!(
        memory.insert(Relocatable::from((0, 0)), num(-1)),
        Err(MemoryError::NumOutOfBounds)
    );
    assert_eq!(
        memory.insert(Relocatable::from((0, 1)), MaybeRelocatable::Int(Felt252::max_value())),
        Err(MemoryError::NumOutOfBounds)
    );
}

#[test]
fn range_check_refuses_addresses() {
    let mut memory = range_checked_memory();
    assert_eq!(
        memory.insert(Relocatable::from((0, 0)), MaybeRelocatable::from((0, 0))),
        Err(MemoryError::FoundNonInt)
    );
}

#[test]
fn range_check_accepts_zero_and_small_numbers() {
    let mut memory = range_checked_memory();
    assert_eq!(memory.insert(Relocatable::from((0, 0)), num(0)), Ok(()));
    assert_eq!(memory.insert(Relocatable::from((0, 1)), num(65536)), Ok(()));
    assert_eq!(memory.validate_existing_memory(), Ok(()));
}

#[test]
fn rule_verdicts() {
    let rule = ValidationRule::RangeCheck(Some(Felt252::new(10)));
    assert_eq!(rule.check(&num(9)), Ok(()));
    assert_eq!(rule.check(&num(10)), Err(MemoryError::NumOutOfBounds));
    assert_eq!(rule.check(&MaybeRelocatable::from((1, 1))), Err(MemoryError::FoundNonInt));
    let unbounded = ValidationRule::RangeCheck(None);
    assert_eq!(unbounded.check(&num(-1)), Ok(()));
    assert_eq!(unbounded.check(&MaybeRelocatable::from((1, 1))), Err(MemoryError::FoundNonInt));
}

#[test]
fn writing_the_same_value_twice_changes_nothing() {
    let mut memory = Memory::new();
    let mut segments = MemorySegmentManager::new();
    segments.add(&mut memory);
    let key = Relocatable::from((0, 2));
    assert_eq!(memory.insert(key, num(5)), Ok(()));
    let before = memory.data.clone();
    assert_eq!(memory.insert(key, num(5)), Ok(()));
    assert_eq!(memory.data, before);
    assert_eq!(memory.get(&key), Some(num(5)));
}

#[test]
fn writing_another_value_is_refused() {
    let mut memory = Memory::new();
    let mut segments = MemorySegmentManager::new();
    segments.add(&mut memory);
    let key = Relocatable::from((0, 2));
    assert_eq!(memory.insert(key, num(5)), Ok(()));
    assert_eq!(
        memory.insert(key, num(6)),
        Err(MemoryError::InconsistentMemory(key, num(5), num(6)))
    );
    assert_eq!(memory.get(&key), Some(num(5)));
    assert_eq!(
        memory.insert(key, MaybeRelocatable::from((0, 0))),
        Err(MemoryError::InconsistentMemory(key, num(5), MaybeRelocatable::from((0, 0))))
    );
}

#[test]
fn writing_past_the_end_leaves_holes() {
    let mut memory = Memory::new();
    let mut segments = MemorySegmentManager::new();
    segments.add(&mut memory);
    assert_eq!(memory.insert(Relocatable::from((0, 3)), num(7)), Ok(()));
    assert_eq!(memory.data[0].len(), 4);
    assert_eq!(memory.get(&Relocatable::from((0, 0))), None);
    assert_eq!(memory.get(&Relocatable::from((0, 2))), None);
    assert_eq!(memory.get(&Relocatable::from((0, 3))), Some(num(7)));
    assert_eq!(memory.get(&Relocatable::from((0, 4))), None);
    assert_eq!(memory.get(&Relocatable::from((1, 0))), None);
}

#[test]
fn writing_to_a_missing_segment_is_refused() {
    let mut memory = Memory::new();
    let mut segments = MemorySegmentManager::new();
    segments.add(&mut memory);
    assert_eq!(
        memory.insert(Relocatable::from((1, 0)), num(7)),
        Err(MemoryError::UnallocatedSegment(1, 1))
    );
    assert_eq!(
        memory.insert(Relocatable::from((-1, 0)), num(7)),
        Err(MemoryError::UnallocatedSegment(0, 0))
    );
}

#[test]
fn temporary_segments_have_negative_indexes() {
    let mut memory = Memory::new();
    let mut segments = MemorySegmentManager::new();
    assert_eq!(segments.add_temporary_segment(&mut memory), Relocatable::from((-1, 0)));
    assert_eq!(segments.add_temporary_segment(&mut memory), Relocatable::from((-2, 0)));
    assert_eq!(memory.insert(Relocatable::from((-2, 1)), num(9)), Ok(()));
    assert_eq!(memory.get(&Relocatable::from((-2, 1))), Some(num(9)));
    assert_eq!(memory.get(&Relocatable::from((-1, 1))), None);
    assert_eq!(segments.add(&mut memory), Relocatable::from((0, 0)));
    assert_eq!(segments.add(&mut memory), Relocatable::from((1, 0)));
}

#[test]
fn typed_reads() {
    let mut memory = Memory::new();
    let mut segments = MemorySegmentManager::new();
    segments.add(&mut memory);
    let int_at = Relocatable::from((0, 0));
    let rel_at = Relocatable::from((0, 1));
    let hole = Relocatable::from((0, 2));
    memory.insert(int_at, num(4)).unwrap();
    memory.insert(rel_at, MaybeRelocatable::from((0, 0))).unwrap();
    assert_eq!(memory.get_integer(&int_at), Ok(Felt252::new(4)));
    assert_eq!(memory.get_integer(&rel_at), Err(MemoryError::ExpectedInteger(rel_at)));
    assert_eq!(memory.get_integer(&hole), Err(MemoryError::UnknownMemoryCell(hole)));
    assert_eq!(memory.get_relocatable(&rel_at), Ok(Relocatable::from((0, 0))));
    assert_eq!(memory.get_relocatable(&int_at), Err(MemoryError::ExpectedRelocatable(int_at)));
    assert_eq!(memory.get_relocatable(&hole), Err(MemoryError::UnknownMemoryCell(hole)));
}

#[test]
fn effective_sizes_and_relocation_table() {
    let mut memory = Memory::new();
    let mut segments = MemorySegmentManager::new();
    segments.add(&mut memory);
    segments.add(&mut memory);
    segments.add(&mut memory);
    assert_eq!(segments.relocate_segments(), Err(MemoryError::MissingSegmentUsedSizes));
    memory.insert(Relocatable::from((0, 2)), num(1)).unwrap();
    memory.insert(Relocatable::from((2, 0)), num(1)).unwrap();
    segments.compute_effective_sizes(&memory);
    assert_eq!(segments.segment_used_sizes, Some(vec![3, 0, 1]));
    assert_eq!(segments.get_segment_used_size(0), Some(3));
    assert_eq!(segments.get_segment_used_size(3), None);
    assert_eq!(segments.relocate_segments(), Ok(vec![1, 4, 4]));
}

#[test]
fn loading_data_writes_consecutive_cells() {
    let mut memory = Memory::new();
    let mut segments = MemorySegmentManager::new();
    let base = segments.add(&mut memory);
    let data = vec![num(1), MaybeRelocatable::from((0, 0)), num(3)];
    assert_eq!(segments.load_data(&mut memory, base, &data), Ok(Relocatable::from((0, 3))));
    assert_eq!(memory.get(&Relocatable::from((0, 0))), Some(num(1)));
    assert_eq!(memory.get(&Relocatable::from((0, 1))), Some(MaybeRelocatable::from((0, 0))));
    assert_eq!(memory.get(&Relocatable::from((0, 2))), Some(num(3)));
    let other = vec![num(1), num(2)];
    assert_eq!(
        segments.load_data(&mut memory, base, &other),
        Err(MemoryError::InconsistentMemory(
            Relocatable::from((0, 1)),
            MaybeRelocatable::from((0, 0)),
            num(2)
        ))
    );
}
