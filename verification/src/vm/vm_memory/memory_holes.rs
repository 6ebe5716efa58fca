//! Memory holes: the cells of the segments in use that no instruction and no
//! builtin accessed.

use crate::types::errors::memory_errors::MemoryError;
use crate::types::relocatable::Relocatable;
use crate::vm::vm_memory::memory_segments::MemorySegmentManager;
use vstd::prelude::*;

verus! {

/// Whether the address at position `k` occurs nowhere before it.
pub open spec fn first_occurrence(accessed: Seq<Relocatable>, k: int) -> bool {
    forall|j: int| 0 <= j < k ==> accessed[j] != accessed[k]
}

/// The number of different addresses of segment `segment` among the first `n`
/// of `accessed`.
pub open spec fn distinct_in_segment(accessed: Seq<Relocatable>, segment: int, n: int) -> nat
    decreases n,
{
    if n <= 0 {
        0
    } else if accessed[n - 1].segment_index == segment && first_occurrence(accessed, n - 1) {
        distinct_in_segment(accessed, segment, n - 1) + 1
    } else {
        distinct_in_segment(accessed, segment, n - 1)
    }
}

/// The holes of segment `i`: none where nothing in it was accessed, else its
/// cells less the accessed ones.
pub open spec fn holes_of(sizes: Seq<usize>, accessed: Seq<Relocatable>, i: int) -> int {
    let touched = distinct_in_segment(accessed, i, accessed.len() as int);
    if touched == 0 {
        0
    } else {
        sizes[i] - touched
    }
}

/// The holes of the first `m` segments together.
pub open spec fn holes_upto(sizes: Seq<usize>, accessed: Seq<Relocatable>, m: int) -> int
    decreases m,
{
    if m <= 0 {
        0
    } else {
        holes_upto(sizes, accessed, m - 1) + holes_of(sizes, accessed, m - 1)
    }
}

/// What is wrong with one accessed address, if anything: it lies in a temporary
/// segment, in a segment without a counted size, or beyond that size.
pub open spec fn access_fault(sizes: Seq<usize>, addr: Relocatable) -> Option<MemoryError> {
    if addr.segment_index < 0 {
        Some(MemoryError::AddressInTemporarySegment(addr.segment_index))
    } else if addr.segment_index >= sizes.len() {
        Some(MemoryError::SegmentNotFinalized(addr.segment_index as usize))
    } else if addr.offset > sizes[addr.segment_index as int] {
        Some(
            MemoryError::AccessedAddressOffsetBiggerThanSegmentSize(
                addr,
                sizes[addr.segment_index as int],
            ),
        )
    } else {
        None
    }
}

/// The fault of the first faulty address from position `from` on.
pub open spec fn first_fault(sizes: Seq<usize>, accessed: Seq<Relocatable>, from: int) -> Option<
    MemoryError,
>
    decreases accessed.len() - from,
{
    if from < 0 || from >= accessed.len() {
        None
    } else if access_fault(sizes, accessed[from]) is Some {
        access_fault(sizes, accessed[from])
    } else {
        first_fault(sizes, accessed, from + 1)
    }
}

/// The first segment from `from` on with more accessed addresses than cells.
pub open spec fn first_overfull(sizes: Seq<usize>, accessed: Seq<Relocatable>, from: int) -> Option<
    int,
>
    decreases sizes.len() - from,
{
    if from < 0 || from >= sizes.len() {
        None
    } else if distinct_in_segment(accessed, from, accessed.len() as int) > sizes[from] {
        Some(from)
    } else {
        first_overfull(sizes, accessed, from + 1)
    }
}

/// What `get_memory_holes` returns for the counted sizes and the accessed
/// addresses.
pub open spec fn memory_holes(sizes: Seq<usize>, accessed: Seq<Relocatable>) -> Result<
    usize,
    MemoryError,
> {
    match first_fault(sizes, accessed, 0) {
        Some(e) => Err(e),
        None => match first_overfull(sizes, accessed, 0) {
            Some(i) => Err(
                MemoryError::SegmentHasMoreAccessedAddressesThanSize(
                    i as usize,
                    sizes[i],
                    distinct_in_segment(accessed, i, accessed.len() as int) as usize,
                ),
            ),
            None => if holes_upto(sizes, accessed, sizes.len() as int) <= usize::MAX {
                Ok(holes_upto(sizes, accessed, sizes.len() as int) as usize)
            } else {
                Err(MemoryError::SizeOverflow)
            },
        },
    }
}

/// No more different addresses than addresses.
pub proof fn lemma_distinct_bounded(accessed: Seq<Relocatable>, segment: int, n: int)
    requires
        0 <= n,
    ensures
        distinct_in_segment(accessed, segment, n) <= n,
    decreases n,
{
    if n > 0 {
        lemma_distinct_bounded(accessed, segment, n - 1);
    }
}

/// Where no segment holds more accessed addresses than cells, the holes of the
/// first `m` segments are no fewer than those of the first `k`, and none is
/// negative.
pub proof fn lemma_holes_monotone(sizes: Seq<usize>, accessed: Seq<Relocatable>, k: int, m: int)
    requires
        0 <= k <= m <= sizes.len(),
        first_overfull(sizes, accessed, 0) is None,
    ensures
        0 <= holes_upto(sizes, accessed, k) <= holes_upto(sizes, accessed, m),
    decreases m,
{
    if m > 0 {
        lemma_not_overfull(sizes, accessed, 0, m - 1);
        if k < m {
            lemma_holes_monotone(sizes, accessed, k, m - 1);
        } else {
            lemma_holes_monotone(sizes, accessed, k - 1, m - 1);
        }
    }
}

/// Where no segment from `from` on is overfull, segment `i` is not.
pub proof fn lemma_not_overfull(sizes: Seq<usize>, accessed: Seq<Relocatable>, from: int, i: int)
    requires
        0 <= from <= i < sizes.len(),
        first_overfull(sizes, accessed, from) is None,
    ensures
        distinct_in_segment(accessed, i, accessed.len() as int) <= sizes[i],
    decreases i - from,
{
    if from < i {
        lemma_not_overfull(sizes, accessed, from + 1, i);
    }
}

/// Whether the address at position `k` occurs nowhere before it.
pub fn is_first_occurrence(accessed: &Vec<Relocatable>, k: usize) -> (r: bool)
    requires
        k < accessed@.len(),
    ensures
        r == first_occurrence(accessed@, k as int),
{
    let mut j: usize = 0;
    while j < k
        invariant
            j <= k,
            k < accessed@.len(),
            forall|i: int| 0 <= i < j ==> accessed@[i] != accessed@[k as int],
        decreases k - j,
    {
        if accessed[j] == accessed[k] {
            return false;
        }
        j = j + 1;
    }
    true
}

/// The fault of the first faulty address, if there is one.
pub fn find_fault(sizes: &Vec<usize>, accessed: &Vec<Relocatable>) -> (r: Option<MemoryError>)
    ensures
        r == first_fault(sizes@, accessed@, 0),
{
    let mut k: usize = 0;
    while k < accessed.len()
        invariant
            k <= accessed@.len(),
            first_fault(sizes@, accessed@, 0) == first_fault(sizes@, accessed@, k as int),
        decreases accessed@.len() - k,
    {
        let addr = accessed[k];
        if addr.segment_index < 0 {
            return Some(MemoryError::AddressInTemporarySegment(addr.segment_index));
        }
        let index = addr.segment_index as usize;
        if index >= sizes.len() {
            return Some(MemoryError::SegmentNotFinalized(index));
        }
        if addr.offset > sizes[index] {
            return Some(
                MemoryError::AccessedAddressOffsetBiggerThanSegmentSize(addr, sizes[index]),
            );
        }
        k = k + 1;
    }
    None
}

/// For each segment the number of different addresses accessed in it. Every
/// address must lie in one of the segments.
pub fn count_accessed(n_segments: usize, accessed: &Vec<Relocatable>) -> (r: Vec<usize>)
    requires
        forall|k: int|
            0 <= k < accessed@.len() ==> 0 <= (#[trigger] accessed@[k]).segment_index < n_segments,
    ensures
        r@.len() == n_segments,
        forall|i: int|
            0 <= i < n_segments ==> r@[i] == distinct_in_segment(
                accessed@,
                i,
                accessed@.len() as int,
            ),
{
    let mut counts: Vec<usize> = Vec::new();
    let mut i: usize = 0;
    while i < n_segments
        invariant
            i <= n_segments,
            counts@.len() == i,
            forall|s: int| 0 <= s < i ==> counts@[s] == 0,
        decreases n_segments - i,
    {
        counts.push(0);
        i = i + 1;
    }
    let mut k: usize = 0;
    while k < accessed.len()
        invariant
            k <= accessed@.len(),
            counts@.len() == n_segments,
            forall|j: int|
                0 <= j < accessed@.len() ==> 0 <= (#[trigger] accessed@[j]).segment_index
                    < n_segments,
            forall|s: int|
                0 <= s < n_segments ==> counts@[s] == distinct_in_segment(accessed@, s, k as int),
        decreases accessed@.len() - k,
    {
        let index = accessed[k].segment_index as usize;
        if is_first_occurrence(accessed, k) {
            proof {
                lemma_distinct_bounded(accessed@, index as int, k as int);
            }
            let ghost before = counts@;
            counts[index] = counts[index] + 1;
            assert(forall|s: int| 0 <= s < n_segments && s != index ==> counts@[s] == before[s]);
        }
        k = k + 1;
    }
    counts
}

impl MemorySegmentManager {
    /// The number of memory holes: over the segments in which an address was
    /// accessed, the cells in use that are not among `accessed`. An address
    /// counts once however often it is listed. The effective sizes must have
    /// been computed.
    pub fn get_memory_holes(&self, accessed: &Vec<Relocatable>) -> (r: Result<usize, MemoryError>)
        ensures
            r == (match self.segment_used_sizes {
                Some(sizes) => memory_holes(sizes@, accessed@),
                None => Err(MemoryError::MissingSegmentUsedSizes),
            }),
    {
        let sizes = match &self.segment_used_sizes {
            Some(sizes) => sizes,
            None => {
                return Err(MemoryError::MissingSegmentUsedSizes);
            },
        };
        match find_fault(sizes, accessed) {
            Some(e) => {
                return Err(e);
            },
            None => {},
        }
        proof {
            lemma_no_fault(sizes@, accessed@, 0);
        }
        let counts = count_accessed(sizes.len(), accessed);
        let mut i: usize = 0;
        while i < sizes.len()
            invariant
                i <= sizes@.len(),
                counts@.len() == sizes@.len(),
                forall|s: int|
                    0 <= s < sizes@.len() ==> counts@[s] == distinct_in_segment(
                        accessed@,
                        s,
                        accessed@.len() as int,
                    ),
                first_fault(sizes@, accessed@, 0) is None,
                self.segment_used_sizes == Some(*sizes),
                first_overfull(sizes@, accessed@, 0) == first_overfull(sizes@, accessed@, i as int),
            decreases sizes@.len() - i,
        {
            if counts[i] > sizes[i] {
                assert(first_overfull(sizes@, accessed@, i as int) == Some(i as int));
                return Err(
                    MemoryError::SegmentHasMoreAccessedAddressesThanSize(i, sizes[i], counts[i]),
                );
            }
            i = i + 1;
        }
        let mut holes: usize = 0;
        let mut i: usize = 0;
        while i < sizes.len()
            invariant
                i <= sizes@.len(),
                counts@.len() == sizes@.len(),
                forall|s: int|
                    0 <= s < sizes@.len() ==> counts@[s] == distinct_in_segment(
                        accessed@,
                        s,
                        accessed@.len() as int,
                    ),
                first_fault(sizes@, accessed@, 0) is None,
                self.segment_used_sizes == Some(*sizes),
                first_overfull(sizes@, accessed@, 0) is None,
                holes == holes_upto(sizes@, accessed@, i as int),
            decreases sizes@.len() - i,
        {
            proof {
                lemma_not_overfull(sizes@, accessed@, 0, i as int);
                assert(holes_upto(sizes@, accessed@, i + 1) == holes_upto(sizes@, accessed@, i as int)
                    + holes_of(sizes@, accessed@, i as int));
            }
            let here = if counts[i] == 0 {
                0
            } else {
                sizes[i] - counts[i]
            };
            holes = match holes.checked_add(here) {
                Some(sum) => sum,
                None => {
                    proof {
                        lemma_holes_monotone(sizes@, accessed@, i + 1, sizes@.len() as int);
                    }
                    return Err(MemoryError::SizeOverflow);
                },
            };
            i = i + 1;
        }
        Ok(holes)
    }
}

/// Where no address from `from` on is faulty, each lies in a counted segment.
pub proof fn lemma_no_fault(sizes: Seq<usize>, accessed: Seq<Relocatable>, from: int)
    requires
        0 <= from,
        first_fault(sizes, accessed, from) is None,
    ensures
        forall|k: int|
            from <= k < accessed.len() ==> 0 <= (#[trigger] accessed[k]).segment_index
                < sizes.len(),
    decreases accessed.len() - from,
{
    if from < accessed.len() {
        lemma_no_fault(sizes, accessed, from + 1);
    }
}

} // verus!
