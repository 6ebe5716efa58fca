//! Write-once memory made of growable segments of optional cells.

use crate::felt::Felt252;
use crate::types::errors::memory_errors::MemoryError;
use crate::types::relocatable::{MaybeRelocatable, Relocatable};
use vstd::prelude::*;

verus! {

/// A predicate that every value written to a segment must meet.
#[derive(Clone, Copy, Debug, PartialEq, Eq, Structural)]
pub enum ValidationRule {
    /// The value is a field element, strictly below the bound where there is
    /// one.
    RangeCheck(Option<Felt252>),
}

impl ValidationRule {
    /// What the rule says of a value: nothing, or the error it raises.
    pub open spec fn verdict(self, value: MaybeRelocatable) -> Result<(), MemoryError> {
        match self {
            ValidationRule::RangeCheck(bound) => match value {
                MaybeRelocatable::Int(num) => match bound {
                    Some(limit) => if num@ < limit@ {
                        Ok(())
                    } else {
                        Err(MemoryError::NumOutOfBounds)
                    },
                    None => Ok(()),
                },
                MaybeRelocatable::RelocatableValue(_) => Err(MemoryError::FoundNonInt),
            },
        }
    }

    /// Applies the rule to a value.
    pub fn check(&self, value: &MaybeRelocatable) -> (r: Result<(), MemoryError>)
        ensures
            r == self.verdict(*value),
    {
        match self {
            ValidationRule::RangeCheck(bound) => match value {
                MaybeRelocatable::Int(num) => match bound {
                    Some(limit) => if num.lt(limit) {
                        Ok(())
                    } else {
                        Err(MemoryError::NumOutOfBounds)
                    },
                    None => Ok(()),
                },
                MaybeRelocatable::RelocatableValue(_) => Err(MemoryError::FoundNonInt),
            },
        }
    }
}

/// The cell at row `i`, column `j` of a list of segments; a hole where the
/// segment or the cell is not there.
pub open spec fn cell_of(data: Seq<Vec<Option<MaybeRelocatable>>>, i: int, j: int) -> Option<
    MaybeRelocatable,
> {
    if 0 <= i < data.len() && 0 <= j < data[i]@.len() {
        data[i]@[j]
    } else {
        None
    }
}

/// The row of the temporary segment with (negative) index `segment_index`.
pub open spec fn temp_row(segment_index: int) -> int {
    -(segment_index + 1)
}

/// The memory of one run.
#[derive(Debug)]
pub struct Memory {
    /// The permanent segments, by index.
    pub data: Vec<Vec<Option<MaybeRelocatable>>>,
    /// The temporary segments: segment `-1` is row 0, `-2` is row 1, and so on.
    pub temp_data: Vec<Vec<Option<MaybeRelocatable>>>,
    /// For each permanent segment, the rule its values must meet, if any.
    pub validation_rules: Vec<Option<ValidationRule>>,
    /// The addresses whose values passed a validation rule, in order of
    /// validation.
    pub validated_addresses: Vec<Relocatable>,
}

impl Memory {
    /// What the cell at `addr` holds; `None` for a hole.
    pub open spec fn cell(&self, addr: Relocatable) -> Option<MaybeRelocatable> {
        if addr.segment_index >= 0 {
            cell_of(self.data@, addr.segment_index as int, addr.offset as int)
        } else {
            cell_of(self.temp_data@, temp_row(addr.segment_index as int), addr.offset as int)
        }
    }

    /// Whether the segment of `addr` was allocated.
    pub open spec fn allocated(&self, addr: Relocatable) -> bool {
        if addr.segment_index >= 0 {
            addr.segment_index < self.data@.len()
        } else {
            temp_row(addr.segment_index as int) < self.temp_data@.len()
        }
    }

    /// The rule that values of permanent segment `segment_index` must meet.
    pub open spec fn rule(&self, segment_index: int) -> Option<ValidationRule> {
        if 0 <= segment_index < self.validation_rules@.len() {
            self.validation_rules@[segment_index]
        } else {
            None
        }
    }

    /// A memory without segments.
    pub fn new() -> (r: Memory)
        ensures
            r.data@.len() == 0,
            r.temp_data@.len() == 0,
            r.validation_rules@.len() == 0,
            r.validated_addresses@.len() == 0,
            forall|addr: Relocatable| r.cell(addr).is_none(),
    {
        Memory {
            data: Vec::new(),
            temp_data: Vec::new(),
            validation_rules: Vec::new(),
            validated_addresses: Vec::new(),
        }
    }

    /// What `insert` returns on this memory.
    pub open spec fn insert_verdict(&self, key: Relocatable, val: MaybeRelocatable) -> Result<
        (),
        MemoryError,
    > {
        if !self.allocated(key) {
            if key.segment_index >= 0 {
                Err(MemoryError::UnallocatedSegment(key.segment_index as usize, self.data@.len() as usize))
            } else {
                Err(
                    MemoryError::UnallocatedSegment(
                        temp_row(key.segment_index as int) as usize,
                        self.temp_data@.len() as usize,
                    ),
                )
            }
        } else if self.cell(key) matches Some(current) && current != val {
            Err(MemoryError::InconsistentMemory(key, self.cell(key).unwrap(), val))
        } else {
            match self.rule(key.segment_index as int) {
                Some(rule) => rule.verdict(val),
                None => Ok(()),
            }
        }
    }

    /// Whether `insert` writes the cell: the segment is there and the cell is a
    /// hole or holds the same value already.
    pub open spec fn accepts(&self, key: Relocatable, val: MaybeRelocatable) -> bool {
        self.allocated(key) && (self.cell(key).is_none() || self.cell(key) == Some(val))
    }

    /// How `insert(key, val)` changes memory from `self` to `after`: the cell at
    /// `key` holds `val` where the write was accepted, every other cell is as
    /// before, the segment grew to reach `key` at most, the rules stand, and the
    /// address is recorded as validated where a rule passed.
    pub open spec fn insert_effect(
        &self,
        after: Memory,
        key: Relocatable,
        val: MaybeRelocatable,
    ) -> bool {
        &&& forall|addr: Relocatable|
            after.cell(addr) == (if addr == key && self.accepts(key, val) {
                Some(val)
            } else {
                self.cell(addr)
            })
        &&& after.data@.len() == self.data@.len()
        &&& after.temp_data@.len() == self.temp_data@.len()
        &&& after.validation_rules@ == self.validation_rules@
        &&& forall|i: int|
            #[trigger] after.segment_len(i) == (if self.accepts(key, val) && 0 <= i
                == key.segment_index && key.offset >= self.segment_len(i) {
                (key.offset + 1) as nat
            } else {
                self.segment_len(i)
            })
        &&& forall|addr: Relocatable|
            self.validated_addresses@.contains(addr) ==> after.validated_addresses@.contains(addr)
        &&& self.insert_verdict(key, val) is Ok && self.rule(key.segment_index as int) is Some
            ==> after.validated_addresses@.contains(key)
    }

    /// Whether `after` holds everything that `self` holds: every cell that is
    /// written keeps its value, no segment is lost or shrinks, and the rules
    /// stand.
    pub open spec fn extended_by(&self, after: Memory) -> bool {
        &&& forall|addr: Relocatable|
            self.cell(addr) is Some ==> after.cell(addr) == self.cell(addr)
        &&& after.data@.len() == self.data@.len()
        &&& after.temp_data@.len() == self.temp_data@.len()
        &&& after.validation_rules@ == self.validation_rules@
        &&& forall|i: int| #[trigger] after.segment_len(i) >= self.segment_len(i)
        &&& forall|addr: Relocatable|
            self.validated_addresses@.contains(addr) ==> after.validated_addresses@.contains(addr)
    }

    /// The number of cells, holes included, of permanent segment `i`.
    pub open spec fn segment_len(&self, i: int) -> nat {
        if 0 <= i < self.data@.len() {
            self.data@[i]@.len()
        } else {
            0
        }
    }

    /// Writes `val` at `key`. A cell is written once: writing the value it holds
    /// again changes nothing, writing another value is refused. The gap between
    /// the end of the segment and `key` is filled with holes. Where the segment
    /// carries a validation rule, the value is then held to it.
    pub fn insert(&mut self, key: Relocatable, val: MaybeRelocatable) -> (r: Result<
        (),
        MemoryError,
    >)
        ensures
            r == old(self).insert_verdict(key, val),
            old(self).insert_effect(*final(self), key, val),
    {
        let current = self.get(&key);
        if key.segment_index >= 0 {
            let row: usize = key.segment_index as usize;
            if row >= self.data.len() {
                return Err(MemoryError::UnallocatedSegment(row, self.data.len()));
            }
            match current {
                Some(held) => {
                    if held != val {
                        return Err(MemoryError::InconsistentMemory(key, held, val));
                    }
                },
                None => {
                    write_cell(&mut self.data, row, key.offset, val);
                },
            }
            self.validate_value(key, val)
        } else {
            let row: usize = (-(key.segment_index + 1)) as usize;
            if row >= self.temp_data.len() {
                return Err(MemoryError::UnallocatedSegment(row, self.temp_data.len()));
            }
            match current {
                Some(held) => {
                    if held != val {
                        return Err(MemoryError::InconsistentMemory(key, held, val));
                    }
                },
                None => {
                    write_cell(&mut self.temp_data, row, key.offset, val);
                },
            }
            Ok(())
        }
    }

    /// Holds `val`, the value at `key`, to the rule of its segment, and records
    /// the address where it passes.
    fn validate_value(&mut self, key: Relocatable, val: MaybeRelocatable) -> (r: Result<
        (),
        MemoryError,
    >)
        requires
            key.segment_index >= 0,
        ensures
            r == (match old(self).rule(key.segment_index as int) {
                Some(rule) => rule.verdict(val),
                None => Ok(()),
            }),
            final(self).data == old(self).data,
            final(self).temp_data == old(self).temp_data,
            final(self).validation_rules == old(self).validation_rules,
            forall|addr: Relocatable|
                old(self).validated_addresses@.contains(addr)
                    ==> final(self).validated_addresses@.contains(addr),
            r is Ok && old(self).rule(key.segment_index as int) is Some
                ==> final(self).validated_addresses@.contains(key),
    {
        let row: usize = key.segment_index as usize;
        if row < self.validation_rules.len() {
            match self.validation_rules[row] {
                Some(rule) => {
                    match rule.check(&val) {
                        Ok(()) => {
                            let ghost before = self.validated_addresses@;
                            self.validated_addresses.push(key);
                            proof {
                                assert(self.validated_addresses@.last() == key);
                                assert forall|addr: Relocatable| before.contains(addr) implies 
                                    self.validated_addresses@.contains(addr) by {
                                    let i = choose|i: int| 0 <= i < before.len() && before[i] == addr;
                                    assert(self.validated_addresses@[i] == addr);
                                }
                            }
                            Ok(())
                        },
                        Err(e) => Err(e),
                    }
                },
                None => Ok(()),
            }
        } else {
            Ok(())
        }
    }

    /// What the rule of its segment says of the cell at `addr`, where the
    /// segment has a rule and reaches `addr`: a value is held to the rule, and a
    /// hole is not a field element.
    pub open spec fn verdict_at(&self, addr: Relocatable) -> Result<(), MemoryError> {
        match self.rule(addr.segment_index as int) {
            Some(rule) => if addr.segment_index >= 0 && addr.offset < self.segment_len(
                addr.segment_index as int,
            ) {
                match self.cell(addr) {
                    Some(value) => rule.verdict(value),
                    None => Err(MemoryError::FoundNonInt),
                }
            } else {
                Ok(())
            },
            None => Ok(()),
        }
    }

    /// Whether every cell of a segment with a rule holds a value that meets the
    /// rule.
    pub open spec fn all_valid(&self) -> bool {
        forall|addr: Relocatable| #[trigger] self.verdict_at(addr) is Ok
    }

    /// Holds every cell of every segment with a rule to the rule. Fails with the
    /// error of a cell that does not meet its rule; a hole fails as a cell that
    /// holds no field element.
    pub fn validate_existing_memory(&mut self) -> (r: Result<(), MemoryError>)
        ensures
            r is Ok <==> old(self).all_valid(),
            r matches Err(e) ==> exists|addr: Relocatable|
                #[trigger] old(self).verdict_at(addr) == Err::<(), MemoryError>(e),
            final(self).data == old(self).data,
            final(self).temp_data == old(self).temp_data,
            final(self).validation_rules == old(self).validation_rules,
            forall|addr: Relocatable|
                old(self).validated_addresses@.contains(addr)
                    ==> final(self).validated_addresses@.contains(addr),
    {
        let mut i: usize = 0;
        while i < self.data.len()
            invariant
                i <= self.data@.len(),
                self.data == old(self).data,
                self.temp_data == old(self).temp_data,
                self.validation_rules == old(self).validation_rules,
                forall|addr: Relocatable|
                    old(self).validated_addresses@.contains(addr)
                        ==> self.validated_addresses@.contains(addr),
                forall|addr: Relocatable|
                    addr.segment_index < i ==> #[trigger] old(self).verdict_at(addr) is Ok,
            decreases self.data@.len() - i,
        {
            if i < self.validation_rules.len() && self.validation_rules[i].is_some() && i
                <= isize::MAX as usize {
                let mut j: usize = 0;
                while j < self.data[i].len()
                    invariant
                        i < self.data@.len(),
                        i <= isize::MAX,
                        j <= self.data@[i as int]@.len(),
                        self.rule(i as int) is Some,
                        self.data == old(self).data,
                        self.temp_data == old(self).temp_data,
                        self.validation_rules == old(self).validation_rules,
                        forall|addr: Relocatable|
                            old(self).validated_addresses@.contains(addr)
                                ==> self.validated_addresses@.contains(addr),
                        forall|addr: Relocatable|
                            addr.segment_index == i && addr.offset < j ==> #[trigger] old(self).verdict_at(addr) is Ok,
                    decreases self.data@[i as int]@.len() - j,
                {
                    let key = Relocatable { segment_index: i as isize, offset: j };
                    match self.data[i][j] {
                        Some(value) => {
                            assert(old(self).cell(key) == Some(value));
                            match self.validate_value(key, value) {
                                Ok(()) => {},
                                Err(e) => {
                                    assert(old(self).verdict_at(key) == Err::<(), MemoryError>(e));
                                    return Err(e);
                                },
                            }
                        },
                        None => {
                            assert(old(self).cell(key).is_none());
                            assert(old(self).verdict_at(key) == Err::<(), MemoryError>(
                                MemoryError::FoundNonInt,
                            ));
                            return Err(MemoryError::FoundNonInt);
                        },
                    }
                    assert forall|addr: Relocatable|
                        addr.segment_index == i && addr.offset < j + 1 implies #[trigger] old(self).verdict_at(addr) is Ok by {
                        if addr.offset == j {
                            assert(addr == key);
                        }
                    }
                    j = j + 1;
                }
                assert forall|addr: Relocatable| addr.segment_index < i + 1 implies #[trigger] old(self).verdict_at(addr) is Ok by {
                    if addr.segment_index == i && addr.offset >= j {
                        assert(addr.offset >= old(self).segment_len(i as int));
                    }
                }
            } else {
                assert forall|addr: Relocatable| addr.segment_index < i + 1 implies #[trigger] old(self).verdict_at(addr) is Ok by {
                    if addr.segment_index == i {
                        assert(old(self).rule(i as int).is_none());
                    }
                }
            }
            i = i + 1;
        }
        assert forall|addr: Relocatable| #[trigger] old(self).verdict_at(addr) is Ok by {
            if addr.segment_index >= i {
                assert(old(self).segment_len(addr.segment_index as int) == 0);
            }
        }
        Ok(())
    }

    /// Reads a cell that must hold a field element.
    pub fn get_integer(&self, key: &Relocatable) -> (r: Result<Felt252, MemoryError>)
        ensures
            match self.cell(*key) {
                Some(MaybeRelocatable::Int(num)) => r == Ok::<Felt252, MemoryError>(num),
                Some(MaybeRelocatable::RelocatableValue(_)) => r == Err::<Felt252, MemoryError>(
                    MemoryError::ExpectedInteger(*key),
                ),
                None => r == Err::<Felt252, MemoryError>(MemoryError::UnknownMemoryCell(*key)),
            },
    {
        match self.get(key) {
            Some(MaybeRelocatable::Int(num)) => Ok(num),
            Some(MaybeRelocatable::RelocatableValue(_)) => Err(MemoryError::ExpectedInteger(*key)),
            None => Err(MemoryError::UnknownMemoryCell(*key)),
        }
    }

    /// Reads a cell that must hold an address.
    pub fn get_relocatable(&self, key: &Relocatable) -> (r: Result<Relocatable, MemoryError>)
        ensures
            match self.cell(*key) {
                Some(MaybeRelocatable::RelocatableValue(rel)) => r == Ok::<
                    Relocatable,
                    MemoryError,
                >(rel),
                Some(MaybeRelocatable::Int(_)) => r == Err::<Relocatable, MemoryError>(
                    MemoryError::ExpectedRelocatable(*key),
                ),
                None => r == Err::<Relocatable, MemoryError>(MemoryError::UnknownMemoryCell(*key)),
            },
    {
        match self.get(key) {
            Some(MaybeRelocatable::RelocatableValue(rel)) => Ok(rel),
            Some(MaybeRelocatable::Int(_)) => Err(MemoryError::ExpectedRelocatable(*key)),
            None => Err(MemoryError::UnknownMemoryCell(*key)),
        }
    }

    /// Gives permanent segment `segment_index` the rule that its values must
    /// meet from now on; a rule set before is replaced.
    pub fn add_validation_rule(&mut self, segment_index: usize, rule: ValidationRule)
        ensures
            final(self).rule(segment_index as int) == Some(rule),
            forall|i: int| i != segment_index ==> final(self).rule(i) == old(self).rule(i),
            final(self).data == old(self).data,
            final(self).temp_data == old(self).temp_data,
            final(self).validated_addresses == old(self).validated_addresses,
    {
        while self.validation_rules.len() <= segment_index
            invariant
                self.data == old(self).data,
                self.temp_data == old(self).temp_data,
                self.validated_addresses == old(self).validated_addresses,
                forall|i: int| self.rule(i) == old(self).rule(i),
            decreases segment_index + 1 - self.validation_rules@.len(),
        {
            self.validation_rules.push(None);
        }
        self.validation_rules[segment_index] = Some(rule);
    }

    /// Reads a cell: its value, or `None` for a hole or an address outside every
    /// segment.
    pub fn get(&self, key: &Relocatable) -> (r: Option<MaybeRelocatable>)
        ensures
            r == self.cell(*key),
    {
        if key.segment_index >= 0 {
            read_cell(&self.data, key.segment_index as usize, key.offset)
        } else {
            let row: usize = (-(key.segment_index + 1)) as usize;
            read_cell(&self.temp_data, row, key.offset)
        }
    }
}

/// Reads row `i`, column `j` of a list of segments.
pub fn read_cell(data: &Vec<Vec<Option<MaybeRelocatable>>>, i: usize, j: usize) -> (r: Option<
    MaybeRelocatable,
>)
    ensures
        r == cell_of(data@, i as int, j as int),
{
    if i < data.len() {
        let segment = &data[i];
        if j < segment.len() {
            segment[j]
        } else {
            None
        }
    } else {
        None
    }
}

/// Writes `value` at row `i`, column `j` of a list of segments, filling the gap
/// up to `j` with holes.
pub fn write_cell(
    data: &mut Vec<Vec<Option<MaybeRelocatable>>>,
    i: usize,
    j: usize,
    value: MaybeRelocatable,
)
    requires
        i < old(data)@.len(),
    ensures
        final(data)@.len() == old(data)@.len(),
        cell_of(final(data)@, i as int, j as int) == Some(value),
        forall|a: int, b: int|
            !(a == i && b == j) ==> cell_of(final(data)@, a, b) == cell_of(old(data)@, a, b),
        forall|a: int|
            0 <= a < old(data)@.len() && a != i ==> (#[trigger] final(data)@[a])@.len() == old(data)@[a]@.len(),
        final(data)@[i as int]@.len() == (if old(data)@[i as int]@.len() > j {
            old(data)@[i as int]@.len()
        } else {
            (j + 1) as nat
        }),
{
    let segment = &mut data[i];
    while segment.len() <= j
        invariant
            i < old(data)@.len(),
            segment@.len() >= old(data)@[i as int]@.len(),
            segment@.len() == old(data)@[i as int]@.len() || segment@.len() <= j + 1,
            forall|b: int|
                0 <= b < old(data)@[i as int]@.len() ==> segment@[b] == old(data)@[i as int]@[b],
            forall|b: int|
                old(data)@[i as int]@.len() <= b < segment@.len() ==> segment@[b].is_none(),
        decreases j + 1 - segment@.len(),
    {
        segment.push(None);
    }
    segment[j] = Some(value);
}

/// A cell is written once. After a successful `insert(key, val)`, the same
/// insert succeeds again and leaves every cell as it is, and an insert of any
/// other value at `key` fails with the consistency error.
pub proof fn law_insert_idempotent(
    before: Memory,
    after: Memory,
    again: Memory,
    key: Relocatable,
    val: MaybeRelocatable,
    other: MaybeRelocatable,
)
    requires
        before.insert_verdict(key, val) is Ok,
        before.insert_effect(after, key, val),
        after.insert_effect(again, key, val),
    ensures
        after.cell(key) == Some(val),
        after.insert_verdict(key, val) is Ok,
        forall|addr: Relocatable| again.cell(addr) == after.cell(addr),
        other != val ==> after.insert_verdict(key, other) == Err::<(), MemoryError>(
            MemoryError::InconsistentMemory(key, val, other),
        ),
{
    assert(before.accepts(key, val));
    assert(after.cell(key) == Some(val));
    assert(after.rule(key.segment_index as int) == before.rule(key.segment_index as int));
}

} // verus!
