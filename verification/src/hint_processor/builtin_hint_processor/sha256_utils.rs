//! The hints of the SHA-256 library.

use crate::felt::Felt252;
use crate::hint_processor::builtin_hint_processor::hint_utils::{
    get_integer_from_var_name, get_ptr_from_var_name, ids_addr, ids_integer, ids_ptr,
    integer_fault, ptr_fault, write_verdict,
};
use crate::hint_processor::builtin_hint_processor::math_utils::{
    felt_written, only_wrote, write_felt,
};
use crate::hint_processor::hint_processor_definition::HintReference;
use crate::hint_processor::hint_processor_utils::felt_to_u32;
use crate::serde::deserialize_program::ApTracking;
use crate::types::errors::memory_errors::MemoryError;
use crate::types::relocatable::{MaybeRelocatable, Relocatable};
use crate::vm::errors::hint_errors::HintError;
use crate::vm::errors::vm_errors::VirtualMachineError;
use crate::vm::vm_core::VirtualMachine;
use crate::vm::vm_memory::memory_segments::{load_verdict, loadable, nth_after};
use generic_array::GenericArray;
use sha2::compress256;
use vstd::prelude::*;

verus! {

/// The words of one input block.
pub const SHA256_INPUT_CHUNK_SIZE_FELTS: usize = 16;

/// The words of the state.
pub const SHA256_STATE_SIZE_FELTS: usize = 8;

/// The blocks of one batch.
pub const BLOCK_SIZE: usize = 7;

/// The state that `sha2::compress256` leaves after one block.
pub uninterp spec fn sha256_compressed(state: Seq<u32>, block: Seq<u8>) -> Seq<u32>;

/// Calls `sha2::compress256` on one block of 64 bytes. The result is named,
/// not described.
#[verifier::external_body]
fn compress(state: [u32; 8], block: &[u8; 64]) -> (r: [u32; 8])
    ensures
        r@ == sha256_compressed(state@, block@),
{
    let mut next = state;
    compress256(&mut next, &[GenericArray::clone_from_slice(block)]);
    next
}

/// The initial state of SHA-256.
pub open spec fn iv_spec() -> Seq<u32> {
    seq![
        0x6A09E667u32,
        0xBB67AE85u32,
        0x3C6EF372u32,
        0xA54FF53Au32,
        0x510E527Fu32,
        0x9B05688Cu32,
        0x1F83D9ABu32,
        0x5BE0CD19u32,
    ]
}

/// The initial state of SHA-256.
pub fn initial_state() -> (r: [u32; 8])
    ensures
        r@ == iv_spec(),
{
    let r = [
        0x6A09E667u32,
        0xBB67AE85u32,
        0x3C6EF372u32,
        0xA54FF53Au32,
        0x510E527Fu32,
        0x9B05688Cu32,
        0x1F83D9ABu32,
        0x5BE0CD19u32,
    ];
    assert(r@ =~= iv_spec());
    r
}

/// The byte at position `k` of the block made of the big-endian bytes of the
/// words.
pub open spec fn block_byte(words: Seq<u32>, k: int) -> u8 {
    let word = words[k / 4] as int;
    let shift = 3 - k % 4;
    (if shift == 3 {
        word / 0x1000000
    } else if shift == 2 {
        (word / 0x10000) % 0x100
    } else if shift == 1 {
        (word / 0x100) % 0x100
    } else {
        word % 0x100
    }) as u8
}

/// The block of 64 bytes made of the big-endian bytes of sixteen words.
pub open spec fn block_of(words: Seq<u32>) -> Seq<u8> {
    Seq::new(64, |k: int| block_byte(words, k))
}

/// The block of 64 bytes made of the big-endian bytes of sixteen words.
pub fn make_block(words: &Vec<u32>) -> (r: [u8; 64])
    requires
        words@.len() == 16,
    ensures
        r@ == block_of(words@),
{
    let mut block = [0u8; 64];
    let mut i: usize = 0;
    while i < 16
        invariant
            i <= 16,
            words@.len() == 16,
            forall|k: int| 0 <= k < 4 * i ==> block@[k] == block_byte(words@, k),
        decreases 16 - i,
    {
        let word = words[i];
        block[4 * i] = (word / 0x1000000) as u8;
        block[4 * i + 1] = ((word / 0x10000) % 0x100) as u8;
        block[4 * i + 2] = ((word / 0x100) % 0x100) as u8;
        block[4 * i + 3] = (word % 0x100) as u8;
        i = i + 1;
    }
    assert(block@ =~= block_of(words@));
    block
}

/// The words of a state as cell values.
pub fn state_cells(state: &[u32; 8]) -> (r: Vec<MaybeRelocatable>)
    ensures
        r@.len() == 8,
        forall|k: int|
            0 <= k < 8 ==> (#[trigger] r@[k]) == MaybeRelocatable::Int(
                Felt252::from_int(state@[k] as int),
            ),
{
    let mut cells: Vec<MaybeRelocatable> = Vec::new();
    let mut i: usize = 0;
    while i < 8
        invariant
            i <= 8,
            cells@.len() == i,
            forall|k: int|
                0 <= k < i ==> (#[trigger] cells@[k]) == MaybeRelocatable::Int(
                    Felt252::from_int(state@[k] as int),
                ),
        decreases 8 - i,
    {
        cells.push(MaybeRelocatable::Int(Felt252::constant(state[i] as u128)));
        i = i + 1;
    }
    cells
}

/// Whether `r` is what writing `cells` to consecutive cells from `ptr` on
/// comes to: an overflow where the cells would lie beyond the machine words,
/// else the error of the first cell that memory refuses, else nothing.
pub open spec fn written_all(
    vm: VirtualMachine,
    ptr: Relocatable,
    cells: Seq<MaybeRelocatable>,
    r: Result<(), HintError>,
) -> bool {
    if ptr.offset + cells.len() > usize::MAX {
        r == Err::<(), HintError>(HintError::Internal(VirtualMachineError::RegisterOverflow))
    } else if loadable(vm.memory, ptr, cells) {
        r is Ok
    } else {
        r matches Err(HintError::Internal(VirtualMachineError::Memory(e))) && exists|k: int|
            {
                &&& 0 <= k < cells.len()
                &&& #[trigger] load_verdict(vm.memory, ptr, cells, k) == Err::<(), MemoryError>(e)
                &&& forall|j: int|
                    0 <= j < k ==> #[trigger] load_verdict(vm.memory, ptr, cells, j) is Ok
            }
    }
}

/// Writes `cells` to consecutive cells from `ptr` on.
pub fn write_arg(vm: &mut VirtualMachine, ptr: Relocatable, cells: &Vec<MaybeRelocatable>) -> (r:
    Result<(), HintError>)
    ensures
        only_wrote(*old(vm), *final(vm)),
        r is Ok ==> forall|k: int|
            0 <= k < cells@.len() ==> final(vm).memory.cell(#[trigger] nth_after(ptr, k)) == Some(
                cells@[k],
            ),
        r matches Err(e) ==> e matches HintError::Internal(_),
        written_all(*old(vm), ptr, cells@, r),
        ptr.offset + cells@.len() > usize::MAX ==> *final(vm) == *old(vm),
{
    if ptr.offset > usize::MAX - cells.len() {
        return Err(HintError::Internal(VirtualMachineError::RegisterOverflow));
    }
    match vm.segments.load_data(&mut vm.memory, ptr, cells) {
        Ok(_) => Ok(()),
        Err(e) => Err(HintError::Internal(VirtualMachineError::Memory(e))),
    }
}

/// Writes to `full_word` whether at least four bytes are left: 1 where
/// `n_bytes >= 4`, else 0.
pub fn sha256_input(
    vm: &mut VirtualMachine,
    ids_data: &Vec<(String, HintReference)>,
    ap_tracking: &ApTracking,
) -> (r: Result<(), HintError>)
    ensures
        only_wrote(*old(vm), *final(vm)),
        match ids_integer(*old(vm), ids_data@, *ap_tracking, "n_bytes"@) {
            Some(n_bytes) => felt_written(
                *old(vm),
                *final(vm),
                ids_data@,
                *ap_tracking,
                "full_word"@,
                Felt252::from_int(
                    if n_bytes@ >= 4 {
                        1int
                    } else {
                        0
                    },
                ),
                r,
            ),
            None => r is Err && *final(vm) == *old(vm),
        },
        ids_integer(*old(vm), ids_data@, *ap_tracking, "n_bytes"@) is None ==> (r matches Err(e)
            && integer_fault(*old(vm), ids_data@, *ap_tracking, "n_bytes"@, e)),
{
    let n_bytes = match get_integer_from_var_name("n_bytes", vm, ids_data, ap_tracking) {
        Ok(n) => n,
        Err(e) => {
            return Err(e);
        },
    };
    let flag = if n_bytes.ge(&Felt252::constant(4)) {
        Felt252::constant(1)
    } else {
        Felt252::constant(0)
    };
    write_felt("full_word", flag, vm, ids_data, ap_tracking)
}

/// The word in the cell `k` cells after `ptr`, where it holds a field element
/// of at most 32 bits.
pub open spec fn word_at(vm: VirtualMachine, ptr: Relocatable, k: int) -> Option<u32> {
    if ptr.offset + k > usize::MAX {
        None
    } else {
        match vm.memory.cell(nth_after(ptr, k)) {
            Some(MaybeRelocatable::Int(num)) => if num@ <= u32::MAX {
                Some(num@ as u32)
            } else {
                None
            },
            _ => None,
        }
    }
}

/// Reads the sixteen words of a block from the cells at `ptr`.
fn read_words(vm: &VirtualMachine, ptr: Relocatable) -> (r: Result<Vec<u32>, HintError>)
    ensures
        r matches Ok(words) ==> words@.len() == 16 && forall|k: int|
            0 <= k < 16 ==> word_at(*vm, ptr, k) == Some(#[trigger] words@[k]),
        r is Err ==> exists|k: int| 0 <= k < 16 && #[trigger] word_at(*vm, ptr, k) is None,
{
    let mut words: Vec<u32> = Vec::new();
    let mut i: usize = 0;
    while i < 16
        invariant
            i <= 16,
            words@.len() == i,
            forall|k: int| 0 <= k < i ==> word_at(*vm, ptr, k) == Some(#[trigger] words@[k]),
        decreases 16 - i,
    {
        let cell = match ptr.add_usize(i) {
            Ok(cell) => cell,
            Err(e) => {
                assert(word_at(*vm, ptr, i as int) is None);
                return Err(HintError::Math(e));
            },
        };
        let element = match vm.get_integer(cell) {
            Ok(element) => element,
            Err(e) => {
                assert(word_at(*vm, ptr, i as int) is None);
                return Err(HintError::Memory(e));
            },
        };
        let word = match felt_to_u32(&element) {
            Ok(word) => word,
            Err(e) => {
                assert(word_at(*vm, ptr, i as int) is None);
                return Err(HintError::Math(e));
            },
        };
        words.push(word);
        i = i + 1;
    }
    Ok(words)
}

/// Whether the sixteen cells from `ptr` on hold a word each.
pub open spec fn holds_block(vm: VirtualMachine, ptr: Relocatable) -> bool {
    forall|k: int| 0 <= k < 16 ==> #[trigger] word_at(vm, ptr, k) is Some
}

/// The sixteen words in the cells from `ptr` on.
pub open spec fn block_words(vm: VirtualMachine, ptr: Relocatable) -> Seq<u32> {
    Seq::new(16, |k: int| word_at(vm, ptr, k).unwrap())
}

/// The eight words of the state after the block of `words` was compressed
/// into the initial state, as cell values.
pub open spec fn digest_cells(words: Seq<u32>) -> Seq<MaybeRelocatable> {
    Seq::new(
        8,
        |k: int|
            MaybeRelocatable::Int(
                Felt252::from_int(sha256_compressed(iv_spec(), block_of(words))[k] as int),
            ),
    )
}

/// Compresses the block of sixteen words at `sha256_start` into the initial
/// state and writes the eight words of the new state to the cells at `output`.
pub fn sha256_main(
    vm: &mut VirtualMachine,
    ids_data: &Vec<(String, HintReference)>,
    ap_tracking: &ApTracking,
) -> (r: Result<(), HintError>)
    ensures
        only_wrote(*old(vm), *final(vm)),
        ids_ptr(*old(vm), ids_data@, *ap_tracking, "sha256_start"@) is None ==> (r matches Err(e)
            && ptr_fault(*old(vm), ids_data@, *ap_tracking, "sha256_start"@, e))
            && *final(vm) == *old(vm),
        match ids_ptr(*old(vm), ids_data@, *ap_tracking, "sha256_start"@) {
            Some(start) => if !holds_block(*old(vm), start) {
                r is Err && *final(vm) == *old(vm)
            } else {
                match ids_ptr(*old(vm), ids_data@, *ap_tracking, "output"@) {
                    Some(output) => written_all(
                        *old(vm),
                        output,
                        digest_cells(block_words(*old(vm), start)),
                        r,
                    ),
                    None => r is Err && *final(vm) == *old(vm),
                }
            },
            None => true,
        },
        r is Ok ==> {
            &&& ids_ptr(*old(vm), ids_data@, *ap_tracking, "sha256_start"@) matches Some(start)
            &&& ids_ptr(*old(vm), ids_data@, *ap_tracking, "output"@) matches Some(output)
            &&& exists|words: Seq<u32>|
                {
                    &&& words.len() == 16
                    &&& forall|k: int|
                        0 <= k < 16 ==> word_at(*old(vm), start, k) == Some(#[trigger] words[k])
                    &&& forall|k: int|
                        0 <= k < 8 ==> final(vm).memory.cell(#[trigger] nth_after(output, k))
                            == Some(
                            MaybeRelocatable::Int(
                                Felt252::from_int(
                                    sha256_compressed(iv_spec(), block_of(words))[k] as int,
                                ),
                            ),
                        )
                }
        },
{
    let input_ptr = match get_ptr_from_var_name("sha256_start", vm, ids_data, ap_tracking) {
        Ok(ptr) => ptr,
        Err(e) => {
            return Err(e);
        },
    };
    let words = match read_words(vm, input_ptr) {
        Ok(words) => words,
        Err(e) => {
            return Err(e);
        },
    };
    proof {
        assert forall|k: int| 0 <= k < 16 implies #[trigger] word_at(*old(vm), input_ptr, k)
            == Some(words@[k]) by {
            let word = words@[k];
        }
        assert(holds_block(*old(vm), input_ptr));
        assert(words@ =~= block_words(*old(vm), input_ptr));
    }
    let block = make_block(&words);
    let state = compress(initial_state(), &block);
    let output = state_cells(&state);
    proof {
        assert(output@ =~= digest_cells(words@));
    }
    let output_base = match get_ptr_from_var_name("output", vm, ids_data, ap_tracking) {
        Ok(ptr) => ptr,
        Err(e) => {
            return Err(e);
        },
    };
    let r = write_arg(vm, output_base, &output);
    proof {
        if r is Ok {
            assert forall|k: int| 0 <= k < 8 implies vm.memory.cell(
                #[trigger] nth_after(output_base, k),
            ) == Some(
                MaybeRelocatable::Int(
                    Felt252::from_int(sha256_compressed(iv_spec(), block_of(words@))[k] as int),
                ),
            ) by {
                assert(output@[k] == MaybeRelocatable::Int(Felt252::from_int(state@[k] as int)));
            }
        }
    }
    r
}

/// The padding that `sha256_finalize` writes: `rounds` times sixteen zero
/// words, the initial state, and the state after a block of zeros.
pub open spec fn padding_spec(rounds: int) -> Seq<MaybeRelocatable>
    decreases rounds,
{
    if rounds <= 0 {
        Seq::empty()
    } else {
        padding_spec(rounds - 1) + Seq::new(
            16,
            |k: int| MaybeRelocatable::Int(Felt252::from_int(0)),
        ) + Seq::new(8, |k: int| MaybeRelocatable::Int(Felt252::from_int(iv_spec()[k] as int)))
            + Seq::new(
            8,
            |k: int|
                MaybeRelocatable::Int(
                    Felt252::from_int(
                        sha256_compressed(iv_spec(), Seq::new(64, |j: int| 0u8))[k] as int,
                    ),
                ),
        )
    }
}

/// Pads the last batch: writes six times the padding of one block to the cells
/// at `sha256_ptr_end`.
pub fn sha256_finalize(
    vm: &mut VirtualMachine,
    ids_data: &Vec<(String, HintReference)>,
    ap_tracking: &ApTracking,
) -> (r: Result<(), HintError>)
    ensures
        only_wrote(*old(vm), *final(vm)),
        ids_ptr(*old(vm), ids_data@, *ap_tracking, "sha256_ptr_end"@) is None ==> (r matches Err(e)
            && ptr_fault(*old(vm), ids_data@, *ap_tracking, "sha256_ptr_end"@, e))
            && *final(vm) == *old(vm),
        ids_ptr(*old(vm), ids_data@, *ap_tracking, "sha256_ptr_end"@) matches Some(end)
            ==> written_all(*old(vm), end, padding_spec(6), r),
        r is Ok ==> (ids_ptr(*old(vm), ids_data@, *ap_tracking, "sha256_ptr_end"@) matches Some(
            end,
        ) && forall|k: int|
            0 <= k < padding_spec(6).len() ==> final(vm).memory.cell(#[trigger] nth_after(end, k))
                == Some(padding_spec(6)[k])),
{
    let message = [0u8; 64];
    assert(message@ =~= Seq::new(64, |j: int| 0u8));
    let iv = initial_state();
    let iv_static = state_cells(&iv);
    let state = compress(iv, &message);
    let output = state_cells(&state);
    let sha256_ptr_end = match get_ptr_from_var_name("sha256_ptr_end", vm, ids_data, ap_tracking) {
        Ok(ptr) => ptr,
        Err(e) => {
            return Err(e);
        },
    };
    let zero = MaybeRelocatable::Int(Felt252::constant(0));
    let mut padding: Vec<MaybeRelocatable> = Vec::new();
    let mut round: usize = 0;
    while round < BLOCK_SIZE - 1
        invariant
            round <= BLOCK_SIZE - 1,
            zero == MaybeRelocatable::Int(Felt252::from_int(0)),
            iv_static@.len() == 8,
            output@.len() == 8,
            forall|k: int|
                0 <= k < 8 ==> (#[trigger] iv_static@[k]) == MaybeRelocatable::Int(
                    Felt252::from_int(iv_spec()[k] as int),
                ),
            forall|k: int|
                0 <= k < 8 ==> (#[trigger] output@[k]) == MaybeRelocatable::Int(
                    Felt252::from_int(
                        sha256_compressed(iv_spec(), Seq::new(64, |j: int| 0u8))[k] as int,
                    ),
                ),
            padding@ =~= padding_spec(round as int),
        decreases BLOCK_SIZE - 1 - round,
    {
        let ghost before = padding@;
        let mut i: usize = 0;
        while i < 16
            invariant
                i <= 16,
                zero == MaybeRelocatable::Int(Felt252::from_int(0)),
                padding@ =~= before + Seq::new(
                    i as nat,
                    |k: int| MaybeRelocatable::Int(Felt252::from_int(0)),
                ),
            decreases 16 - i,
        {
            padding.push(zero);
            i = i + 1;
        }
        let ghost zeros = padding@;
        let mut j: usize = 0;
        while j < 8
            invariant
                j <= 8,
                iv_static@.len() == 8,
                padding@ =~= zeros + iv_static@.take(j as int),
            decreases 8 - j,
        {
            padding.push(iv_static[j]);
            j = j + 1;
        }
        let ghost with_iv = padding@;
        let mut j: usize = 0;
        while j < 8
            invariant
                j <= 8,
                output@.len() == 8,
                padding@ =~= with_iv + output@.take(j as int),
            decreases 8 - j,
        {
            padding.push(output[j]);
            j = j + 1;
        }
        proof {
            assert(iv_static@.take(8) =~= Seq::new(
                8,
                |k: int| MaybeRelocatable::Int(Felt252::from_int(iv_spec()[k] as int)),
            ));
            assert(output@.take(8) =~= Seq::new(
                8,
                |k: int|
                    MaybeRelocatable::Int(
                        Felt252::from_int(
                            sha256_compressed(iv_spec(), Seq::new(64, |j: int| 0u8))[k] as int,
                        ),
                    ),
            ));
        }
        round = round + 1;
    }
    write_arg(vm, sha256_ptr_end, &padding)
}

} // verus!
