//! Allocation of segments, their effective sizes and the relocation table.

use crate::types::errors::memory_errors::MemoryError;
use crate::types::relocatable::{MaybeRelocatable, Relocatable};
use crate::vm::vm_memory::memory::Memory;
use vstd::prelude::*;

verus! {

/// The linear address at which segment `i` starts when the segments are laid
/// out one after another from address 1, each with its effective size.
pub open spec fn base_of(sizes: Seq<usize>, i: int) -> int
    decreases i,
{
    if i <= 0 {
        1
    } else {
        base_of(sizes, i - 1) + sizes[i - 1]
    }
}

/// Bases grow with the segment index.
pub proof fn lemma_base_of_monotone(sizes: Seq<usize>, i: int, j: int)
    requires
        0 <= i <= j,
    ensures
        1 <= base_of(sizes, i) <= base_of(sizes, j),
    decreases j,
{
    if i < j {
        lemma_base_of_monotone(sizes, i, j - 1);
    } else if i > 0 {
        lemma_base_of_monotone(sizes, i - 1, i - 1);
        lemma_base_of_monotone(sizes, 0, i - 1);
    }
}

/// The address `k` cells after `ptr`.
pub open spec fn nth_after(ptr: Relocatable, k: int) -> Relocatable {
    Relocatable { segment_index: ptr.segment_index, offset: (ptr.offset + k) as usize }
}

/// What `insert` says of writing the `k`-th value of `data` at its place after
/// `ptr`.
pub open spec fn load_verdict(
    memory: Memory,
    ptr: Relocatable,
    data: Seq<MaybeRelocatable>,
    k: int,
) -> Result<(), MemoryError> {
    memory.insert_verdict(nth_after(ptr, k), data[k])
}

/// Whether memory takes every value of `data` at its place after `ptr`.
pub open spec fn loadable(memory: Memory, ptr: Relocatable, data: Seq<MaybeRelocatable>) -> bool {
    forall|k: int| 0 <= k < data.len() ==> #[trigger] load_verdict(memory, ptr, data, k) is Ok
}

/// Whether the `n` cells from `ptr` on are holes of an allocated segment
/// without a rule.
pub open spec fn blank(memory: Memory, ptr: Relocatable, n: int) -> bool {
    &&& memory.allocated(ptr)
    &&& memory.rule(ptr.segment_index as int) is None
    &&& forall|k: int| 0 <= k < n ==> memory.cell(#[trigger] nth_after(ptr, k)) is None
}

/// Blank cells take any values.
pub proof fn lemma_blank_is_loadable(memory: Memory, ptr: Relocatable, data: Seq<MaybeRelocatable>)
    requires
        blank(memory, ptr, data.len() as int),
    ensures
        loadable(memory, ptr, data),
{
    assert forall|k: int| 0 <= k < data.len() implies #[trigger] load_verdict(
        memory,
        ptr,
        data,
        k,
    ) is Ok by {
        assert(memory.cell(nth_after(ptr, k)) is None);
        assert(memory.allocated(nth_after(ptr, k)));
    }
}

/// Keeps count of the segments of a memory and of their effective sizes.
#[derive(Debug)]
pub struct MemorySegmentManager {
    /// How many permanent segments were allocated.
    pub num_segments: usize,
    /// How many temporary segments were allocated.
    pub num_temp_segments: usize,
    /// For each permanent segment the index after its last cell, once computed.
    pub segment_used_sizes: Option<Vec<usize>>,
}

impl MemorySegmentManager {
    /// A manager that has allocated nothing.
    pub fn new() -> (r: MemorySegmentManager)
        ensures
            r.num_segments == 0,
            r.num_temp_segments == 0,
            r.segment_used_sizes.is_none(),
    {
        MemorySegmentManager { num_segments: 0, num_temp_segments: 0, segment_used_sizes: None }
    }

    /// Whether `n` more permanent segments can still be numbered.
    pub open spec fn has_room(&self, n: int) -> bool {
        self.num_segments + n <= isize::MAX
    }

    /// Allocates a new permanent segment at the end of memory and returns its
    /// first address.
    pub fn add(&mut self, memory: &mut Memory) -> (r: Relocatable)
        requires
            old(self).has_room(1),
        ensures
            r.segment_index == old(self).num_segments,
            r.offset == 0,
            final(self).num_segments == old(self).num_segments + 1,
            final(self).num_temp_segments == old(self).num_temp_segments,
            final(self).segment_used_sizes == old(self).segment_used_sizes,
            forall|i: int|
                0 <= i < old(memory).data@.len() ==> final(memory).data@[i] == old(memory).data@[i],
            final(memory).data@.len() == old(memory).data@.len() + 1,
            final(memory).segment_len(old(memory).data@.len() as int) == 0,
            final(memory).temp_data == old(memory).temp_data,
            final(memory).validation_rules == old(memory).validation_rules,
            final(memory).validated_addresses == old(memory).validated_addresses,
            forall|addr: Relocatable| final(memory).cell(addr) == old(memory).cell(addr),
            forall|i: int| #[trigger] final(memory).segment_len(i) == old(memory).segment_len(i),
    {
        let segment_index: usize = self.num_segments;
        self.num_segments = self.num_segments + 1;
        memory.data.push(Vec::new());
        Relocatable { segment_index: segment_index as isize, offset: 0 }
    }

    /// Allocates a new temporary segment and returns its first address, whose
    /// segment index is negative.
    pub fn add_temporary_segment(&mut self, memory: &mut Memory) -> (r: Relocatable)
        requires
            old(self).num_temp_segments < isize::MAX,
        ensures
            r.segment_index == -(old(self).num_temp_segments + 1),
            r.offset == 0,
            final(self).num_temp_segments == old(self).num_temp_segments + 1,
            final(self).num_segments == old(self).num_segments,
            final(self).segment_used_sizes == old(self).segment_used_sizes,
            final(memory).temp_data@.len() == old(memory).temp_data@.len() + 1,
            final(memory).data == old(memory).data,
            final(memory).validation_rules == old(memory).validation_rules,
            final(memory).validated_addresses == old(memory).validated_addresses,
            forall|addr: Relocatable| final(memory).cell(addr) == old(memory).cell(addr),
    {
        self.num_temp_segments = self.num_temp_segments + 1;
        memory.temp_data.push(Vec::new());
        Relocatable { segment_index: -(self.num_temp_segments as isize), offset: 0 }
    }

    /// The effective size of permanent segment `index`, once the sizes were
    /// computed.
    pub fn get_segment_used_size(&self, index: usize) -> (r: Option<usize>)
        ensures
            r == (match self.segment_used_sizes {
                Some(sizes) => if index < sizes@.len() {
                    Some(sizes@[index as int])
                } else {
                    None
                },
                None => None,
            }),
    {
        match &self.segment_used_sizes {
            Some(sizes) => if index < sizes.len() {
                Some(sizes[index])
            } else {
                None
            },
            None => None,
        }
    }

    /// Computes the effective size of every permanent segment of `memory`: the
    /// index after its last cell, holes included. Sizes computed before are
    /// kept.
    pub fn compute_effective_sizes(&mut self, memory: &Memory)
        ensures
            final(self).num_segments == old(self).num_segments,
            final(self).num_temp_segments == old(self).num_temp_segments,
            old(self).segment_used_sizes is Some ==> final(self).segment_used_sizes == old(self).segment_used_sizes,
            old(self).segment_used_sizes is None ==> (final(self).segment_used_sizes matches Some(
                sizes,
            ) && sizes@.len() == memory.data@.len() && forall|i: int|
                0 <= i < sizes@.len() ==> sizes@[i] == memory.segment_len(i)),
    {
        if self.segment_used_sizes.is_some() {
            return ;
        }
        let mut sizes: Vec<usize> = Vec::new();
        let mut i: usize = 0;
        while i < memory.data.len()
            invariant
                i <= memory.data@.len(),
                sizes@.len() == i,
                forall|k: int| 0 <= k < i ==> sizes@[k] == memory.segment_len(k),
            decreases memory.data@.len() - i,
        {
            sizes.push(memory.data[i].len());
            i = i + 1;
        }
        self.segment_used_sizes = Some(sizes);
    }

    /// The relocation table: for each permanent segment the linear address of
    /// its first cell, the segments laid out from address 1 in index order.
    /// Fails where the sizes were not computed or the layout does not fit in
    /// the machine words.
    pub fn relocate_segments(&self) -> (r: Result<Vec<usize>, MemoryError>)
        ensures
            match self.segment_used_sizes {
                Some(sizes) => if base_of(sizes@, sizes@.len() as int) <= usize::MAX {
                    r matches Ok(table) && table@.len() == sizes@.len() && forall|i: int|
                        0 <= i < table@.len() ==> table@[i] == base_of(sizes@, i)
                } else {
                    r == Err::<Vec<usize>, MemoryError>(MemoryError::SizeOverflow)
                },
                None => r == Err::<Vec<usize>, MemoryError>(MemoryError::MissingSegmentUsedSizes),
            },
    {
        match &self.segment_used_sizes {
            None => Err(MemoryError::MissingSegmentUsedSizes),
            Some(sizes) => {
                let mut table: Vec<usize> = Vec::new();
                let mut next: usize = 1;
                let mut i: usize = 0;
                while i < sizes.len()
                    invariant
                        i <= sizes@.len(),
                        table@.len() == i,
                        self.segment_used_sizes == Some(*sizes),
                        next == base_of(sizes@, i as int),
                        forall|k: int| 0 <= k < i ==> table@[k] == base_of(sizes@, k),
                    decreases sizes@.len() - i,
                {
                    table.push(next);
                    next = match next.checked_add(sizes[i]) {
                        Some(sum) => sum,
                        None => {
                            proof {
                                assert(base_of(sizes@, i + 1) == base_of(sizes@, i as int)
                                    + sizes@[i as int]);
                                lemma_base_of_monotone(sizes@, i + 1, sizes@.len() as int);
                            }
                            return Err(MemoryError::SizeOverflow);
                        },
                    };
                    assert(base_of(sizes@, i + 1) == base_of(sizes@, i as int) + sizes@[i as int]);
                    i = i + 1;
                }
                Ok(table)
            },
        }
    }

    /// Writes `data` into consecutive cells from `ptr` on and returns the
    /// address after the last one. Stops at the first cell that memory refuses,
    /// with the error of that cell.
    pub fn load_data(
        &mut self,
        memory: &mut Memory,
        ptr: Relocatable,
        data: &Vec<MaybeRelocatable>,
    ) -> (r: Result<Relocatable, MemoryError>)
        requires
            ptr.offset + data@.len() <= usize::MAX,
        ensures
            *final(self) == *old(self),
            final(memory).data@.len() == old(memory).data@.len(),
            final(memory).temp_data@.len() == old(memory).temp_data@.len(),
            final(memory).validation_rules@ == old(memory).validation_rules@,
            match r {
                Ok(end) => {
                    &&& end == nth_after(ptr, data@.len() as int)
                    &&& forall|k: int|
                        0 <= k < data@.len() ==> #[trigger] load_verdict(
                            *old(memory),
                            ptr,
                            data@,
                            k,
                        ) is Ok
                    &&& forall|k: int|
                        0 <= k < data@.len() ==> final(memory).cell(#[trigger] nth_after(ptr, k))
                            == Some(data@[k])
                },
                Err(e) => exists|k: int|
                    {
                        &&& 0 <= k < data@.len()
                        &&& #[trigger] load_verdict(*old(memory), ptr, data@, k) == Err::<
                            (),
                            MemoryError,
                        >(e)
                        &&& forall|j: int|
                            0 <= j < k ==> #[trigger] load_verdict(*old(memory), ptr, data@, j) is Ok
                    },
            },
            forall|addr: Relocatable|
                !(addr.segment_index == ptr.segment_index && ptr.offset <= addr.offset < ptr.offset
                    + data@.len()) ==> final(memory).cell(addr) == old(memory).cell(addr),
            forall|addr: Relocatable|
                old(memory).cell(addr) is Some ==> final(memory).cell(addr) == old(memory).cell(
                    addr,
                ),
            forall|i: int|
                !(0 <= i == ptr.segment_index) ==> final(memory).segment_len(i) == old(memory).segment_len(i),
            forall|i: int| final(memory).segment_len(i) >= old(memory).segment_len(i),
            old(memory).extended_by(*final(memory)),
            r is Ok && ptr.segment_index >= 0 && data@.len() > 0 ==> final(memory).segment_len(
                ptr.segment_index as int,
            ) >= ptr.offset + data@.len(),
            r is Ok <==> loadable(*old(memory), ptr, data@),
    {
        let mut i: usize = 0;
        while i < data.len()
            invariant
                i <= data@.len(),
                ptr.offset + data@.len() <= usize::MAX,
                memory.data@.len() == old(memory).data@.len(),
                memory.temp_data@.len() == old(memory).temp_data@.len(),
                memory.validation_rules@ == old(memory).validation_rules@,
                forall|k: int|
                    0 <= k < i ==> #[trigger] load_verdict(*old(memory), ptr, data@, k) is Ok,
                forall|k: int|
                    0 <= k < i ==> memory.cell(#[trigger] nth_after(ptr, k)) == Some(data@[k]),
                forall|addr: Relocatable|
                    !(addr.segment_index == ptr.segment_index && ptr.offset <= addr.offset
                        < ptr.offset + i) ==> memory.cell(addr) == old(memory).cell(addr),
                forall|addr: Relocatable|
                    old(memory).cell(addr) is Some ==> memory.cell(addr) == old(memory).cell(addr),
                forall|k: int|
                    !(0 <= k == ptr.segment_index) ==> memory.segment_len(k) == old(memory).segment_len(k),
                forall|k: int| memory.segment_len(k) >= old(memory).segment_len(k),
                forall|addr: Relocatable|
                    old(memory).validated_addresses@.contains(addr)
                        ==> memory.validated_addresses@.contains(addr),
                ptr.segment_index >= 0 && i > 0 ==> memory.segment_len(ptr.segment_index as int)
                    >= ptr.offset + i,
            decreases data@.len() - i,
        {
            let key = Relocatable { segment_index: ptr.segment_index, offset: ptr.offset + i };
            let ghost before = *memory;
            proof {
                assert(key == nth_after(ptr, i as int));
                assert(before.cell(key) == old(memory).cell(key));
                assert(before.insert_verdict(key, data@[i as int]) == load_verdict(
                    *old(memory),
                    ptr,
                    data@,
                    i as int,
                ));
            }
            match memory.insert(key, data[i]) {
                Ok(()) => {},
                Err(e) => {
                    return Err(e);
                },
            }
            proof {
                assert(before.accepts(key, data@[i as int]));
                assert forall|k: int| 0 <= k < i + 1 implies memory.cell(
                    #[trigger] nth_after(ptr, k),
                ) == Some(data@[k]) by {
                    if k < i {
                        assert(before.cell(nth_after(ptr, k)) == Some(data@[k]));
                    }
                }
                assert(memory.segment_len(ptr.segment_index as int) == memory.segment_len(
                    key.segment_index as int,
                ));
            }
            i = i + 1;
        }
        Ok(Relocatable { segment_index: ptr.segment_index, offset: ptr.offset + data.len() })
    }
}

} // verus!
