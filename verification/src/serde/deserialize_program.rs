//! The parts of a compiled program and how a program is put together from them.

use crate::felt::{Felt252, PRIME_STR};
use crate::types::instruction::Register;
use crate::types::relocatable::MaybeRelocatable;
use crate::vm::runners::builtin_runner::{
    BITWISE_BUILTIN_NAME, EC_OP_BUILTIN_NAME, HASH_BUILTIN_NAME, KECCAK_BUILTIN_NAME,
    OUTPUT_BUILTIN_NAME, POSEIDON_BUILTIN_NAME, RANGE_CHECK_BUILTIN_NAME,
    SEGMENT_ARENA_BUILTIN_NAME, SIGNATURE_BUILTIN_NAME,
};
use vstd::prelude::*;
use vstd::string::{StrSliceExecFns, StringExecFns};

verus! {

/// The builtins a program can declare.
#[derive(Debug, PartialEq, Copy, Clone, Eq, Hash, Structural)]
#[allow(non_camel_case_types)]
pub enum BuiltinName {
    output,
    range_check,
    pedersen,
    ecdsa,
    keccak,
    bitwise,
    ec_op,
    poseidon,
    segment_arena,
}

impl BuiltinName {
    /// The name as programs write it.
    pub open spec fn name_spec(&self) -> Seq<char> {
        match self {
            BuiltinName::output => OUTPUT_BUILTIN_NAME@,
            BuiltinName::range_check => RANGE_CHECK_BUILTIN_NAME@,
            BuiltinName::pedersen => HASH_BUILTIN_NAME@,
            BuiltinName::ecdsa => SIGNATURE_BUILTIN_NAME@,
            BuiltinName::keccak => KECCAK_BUILTIN_NAME@,
            BuiltinName::bitwise => BITWISE_BUILTIN_NAME@,
            BuiltinName::ec_op => EC_OP_BUILTIN_NAME@,
            BuiltinName::poseidon => POSEIDON_BUILTIN_NAME@,
            BuiltinName::segment_arena => SEGMENT_ARENA_BUILTIN_NAME@,
        }
    }

    /// The name as programs write it.
    pub fn name(&self) -> (r: &'static str)
        ensures
            r@ == self.name_spec(),
    {
        match self {
            BuiltinName::output => OUTPUT_BUILTIN_NAME,
            BuiltinName::range_check => RANGE_CHECK_BUILTIN_NAME,
            BuiltinName::pedersen => HASH_BUILTIN_NAME,
            BuiltinName::ecdsa => SIGNATURE_BUILTIN_NAME,
            BuiltinName::keccak => KECCAK_BUILTIN_NAME,
            BuiltinName::bitwise => BITWISE_BUILTIN_NAME,
            BuiltinName::ec_op => EC_OP_BUILTIN_NAME,
            BuiltinName::poseidon => POSEIDON_BUILTIN_NAME,
            BuiltinName::segment_arena => SEGMENT_ARENA_BUILTIN_NAME,
        }
    }
}

/// The group and offset by which the allocation pointer is tracked.
#[derive(Debug, Clone, Copy, PartialEq, Eq, Structural)]
pub struct ApTracking {
    pub group: usize,
    pub offset: usize,
}

impl ApTracking {
    /// Group zero, offset zero.
    pub fn new() -> (r: ApTracking)
        ensures
            r == (ApTracking { group: 0, offset: 0 }),
    {
        ApTracking { group: 0, offset: 0 }
    }
}

/// Where a hint stands in the flow of the program.
#[derive(Debug, Clone, PartialEq, Eq)]
pub struct FlowTrackingData {
    pub ap_tracking: ApTracking,
    /// For each name that the hint uses, the number of its reference.
    pub reference_ids: Vec<(String, usize)>,
}

/// A hint: its code and where it applies.
#[derive(Debug, Clone, PartialEq, Eq)]
pub struct HintParams {
    pub code: String,
    pub accessible_scopes: Vec<String>,
    pub flow_tracking_data: FlowTrackingData,
}

/// A member of a struct that an identifier names.
#[derive(Debug, Clone, PartialEq, Eq)]
pub struct Member {
    pub cairo_type: String,
    pub offset: usize,
}

/// The source file of a location.
#[derive(Debug, Clone, PartialEq, Eq)]
pub struct InputFile {
    pub filename: String,
}

/// A span of source text in one file.
#[derive(Debug, Clone, PartialEq, Eq)]
pub struct Span {
    pub end_line: u32,
    pub end_col: u32,
    pub input_file: InputFile,
    pub start_line: u32,
    pub start_col: u32,
}

/// A span that another was expanded from, and why.
#[derive(Debug, Clone, PartialEq, Eq)]
pub struct ParentLocation {
    pub location: Span,
    pub description: String,
}

/// A span of source text with the chain of spans it was expanded from, the
/// nearest first.
#[derive(Debug, Clone, PartialEq, Eq)]
pub struct Location {
    pub end_line: u32,
    pub end_col: u32,
    pub input_file: InputFile,
    pub parent_location: Vec<ParentLocation>,
    pub start_line: u32,
    pub start_col: u32,
}

/// The location of a hint in the source.
#[derive(Debug, Clone, PartialEq, Eq)]
pub struct HintLocation {
    pub location: Location,
    pub n_prefix_newlines: u32,
}

/// The location of an instruction and of its hints in the source.
#[derive(Debug, Clone, PartialEq, Eq)]
pub struct InstructionLocation {
    pub inst: Location,
    pub hints: Vec<HintLocation>,
}

/// For each program counter with debug information, the location of its
/// instruction.
#[derive(Debug, Clone, PartialEq, Eq)]
pub struct DebugInfo {
    pub instruction_locations: Vec<(usize, InstructionLocation)>,
}

/// A part of the address of a reference.
#[derive(Debug, Clone, Copy, PartialEq, Eq, Structural)]
pub enum OffsetValue {
    Immediate(Felt252),
    Value(i32),
    /// A register, an offset from it, and whether the cell there is read.
    Reference(Register, i32, bool),
}

/// How the value of a reference is found from the registers and memory.
#[derive(Debug, Clone, PartialEq, Eq)]
pub struct ValueAddress {
    pub offset1: OffsetValue,
    pub offset2: OffsetValue,
    pub dereference: bool,
    pub value_type: String,
}

impl ValueAddress {
    /// The address that stands for a reference that no hint uses.
    pub fn no_hint_reference_default() -> (r: ValueAddress)
        ensures
            r.offset1 == OffsetValue::Value(99),
            r.offset2 == OffsetValue::Value(99),
            !r.dereference,
            r.value_type@ == "felt"@,
    {
        ValueAddress {
            offset1: OffsetValue::Value(99),
            offset2: OffsetValue::Value(99),
            dereference: false,
            value_type: String::from_str("felt"),
        }
    }
}

/// A reference: a name of the source bound to a place at a program counter.
#[derive(Debug, Clone, PartialEq, Eq)]
pub struct Reference {
    pub ap_tracking_data: ApTracking,
    pub pc: Option<usize>,
    pub value_address: ValueAddress,
}

/// The references of a program, by number.
#[derive(Debug, Clone, PartialEq, Eq)]
pub struct ReferenceManager {
    pub references: Vec<Reference>,
}

/// What a name of the program stands for.
#[derive(Debug, Clone, PartialEq, Eq)]
pub struct Identifier {
    pub pc: Option<usize>,
    pub type_: Option<String>,
    pub value: Option<Felt252>,
    pub full_name: Option<String>,
    pub members: Option<Vec<(String, Member)>>,
    pub cairo_type: Option<String>,
    pub decorators: Option<Vec<String>>,
    pub size: Option<u64>,
    pub destination: Option<String>,
    pub references: Option<Vec<Reference>>,
}

/// An attribute that the compiler attached to a range of program counters.
#[derive(Debug, Clone, PartialEq, Eq)]
pub struct Attribute {
    pub name: String,
    pub start_pc: usize,
    pub end_pc: usize,
    pub value: String,
    pub flow_tracking_data: Option<FlowTrackingData>,
    pub accessible_scopes: Vec<String>,
}

/// A compiled program as the compiler writes it.
#[derive(Debug, PartialEq, Eq)]
pub struct ProgramJson {
    pub prime: String,
    pub builtins: Vec<BuiltinName>,
    pub data: Vec<MaybeRelocatable>,
    pub identifiers: Vec<(String, Identifier)>,
    pub hints: Vec<(usize, Vec<HintParams>)>,
    pub reference_manager: ReferenceManager,
    pub attributes: Vec<Attribute>,
    pub debug_info: Option<DebugInfo>,
    pub main_scope: String,
    pub compiler_version: String,
}

/// The attributes among the first `n` that carry an error message, in order.
pub open spec fn error_messages(attributes: Seq<Attribute>, n: int) -> Seq<Attribute>
    decreases n,
{
    if n <= 0 {
        Seq::empty()
    } else if attributes[n - 1].name@ == "error_message"@ {
        error_messages(attributes, n - 1).push(attributes[n - 1])
    } else {
        error_messages(attributes, n - 1)
    }
}

/// The attributes from `from` on that carry an error message, in order.
pub open spec fn error_messages_from(attributes: Seq<Attribute>, from: int) -> Seq<Attribute>
    decreases attributes.len() - from,
{
    if from < 0 || from >= attributes.len() {
        Seq::empty()
    } else if attributes[from].name@ == "error_message"@ {
        seq![attributes[from]] + error_messages_from(attributes, from + 1)
    } else {
        error_messages_from(attributes, from + 1)
    }
}

/// Collecting from the front and from the back gives the same attributes.
pub proof fn lemma_error_messages_split(attributes: Seq<Attribute>, n: int)
    requires
        0 <= n <= attributes.len(),
    ensures
        error_messages(attributes, n) + error_messages_from(attributes, n) == error_messages(
            attributes,
            attributes.len() as int,
        ),
    decreases attributes.len() - n,
{
    if n < attributes.len() {
        lemma_error_messages_split(attributes, n + 1);
        if attributes[n].name@ == "error_message"@ {
            assert(error_messages(attributes, n + 1) + error_messages_from(attributes, n + 1)
                =~= error_messages(attributes, n) + error_messages_from(attributes, n));
        }
    } else {
        assert(error_messages(attributes, n) + error_messages_from(attributes, n)
            =~= error_messages(attributes, n));
    }
}

/// Keeps the attributes that carry an error message, in order.
pub fn keep_error_messages(attributes: Vec<Attribute>) -> (r: Vec<Attribute>)
    ensures
        r@ == error_messages(attributes@, attributes@.len() as int),
{
    let wanted = String::from_str("error_message");
    let ghost all = attributes@;
    let mut rest = attributes;
    let mut reversed: Vec<Attribute> = Vec::new();
    // from the back: what is kept comes out in reverse order
    while rest.len() > 0
        invariant
            wanted@ == "error_message"@,
            rest@.len() <= all.len(),
            rest@ =~= all.take(rest@.len() as int),
            reversed@.reverse() =~= error_messages_from(all, rest@.len() as int),
        decreases rest@.len(),
    {
        let ghost n = rest@.len() as int;
        let attribute = rest.pop().unwrap();
        assert(attribute == all[n - 1]);
        if attribute.name == wanted {
            let ghost before = reversed@;
            reversed.push(attribute);
            assert(reversed@.reverse() =~= seq![attribute] + before.reverse());
        }
    }
    let ghost kept = error_messages_from(all, 0);
    let mut out: Vec<Attribute> = Vec::new();
    while reversed.len() > 0
        invariant
            out@ + reversed@.reverse() =~= kept,
        decreases reversed@.len(),
    {
        let ghost before = reversed@;
        let attribute = reversed.pop().unwrap();
        out.push(attribute);
        assert(before.reverse() =~= seq![attribute] + reversed@.reverse());
    }
    proof {
        lemma_error_messages_split(all, 0);
        assert(error_messages(all, 0) + kept =~= kept);
    }
    out
}

/// The program counter of the identifier called `name`.
pub open spec fn pc_of(identifiers: Seq<(String, Identifier)>, name: Seq<char>) -> Option<usize> {
    match crate::types::program::position_of(identifiers, name, 0) {
        Some(i) => identifiers[i].1.pc,
        None => None,
    }
}

/// The program counter of the identifier called `name`.
pub fn identifier_pc(identifiers: &Vec<(String, Identifier)>, name: &str) -> (r: Option<usize>)
    ensures
        r == pc_of(identifiers@, name@),
{
    match crate::types::program::find_identifier(identifiers, name) {
        Some(identifier) => identifier.pc,
        None => None,
    }
}

/// Whether an entry point is asked for that is no identifier of the main
/// scope.
pub open spec fn entrypoint_missing(
    identifiers: Seq<(String, Identifier)>,
    entrypoint: Option<&str>,
) -> bool {
    entrypoint is Some && crate::types::program::position_of(
        identifiers,
        "__main__."@ + entrypoint.unwrap()@,
        0,
    ) is None
}

/// Makes a program of its description. The description must be for the prime
/// of the field; the entry point, where one is asked for, must be a function of
/// the main scope; and every constant must have a value.
pub fn parse_program_json(program_json: ProgramJson, entrypoint: Option<&str>) -> (r: Result<
    crate::types::program::Program,
    crate::types::errors::program_errors::ProgramError,
>)
    ensures
        program_json.prime@ != PRIME_STR@ ==> (r matches Err(
            crate::types::errors::program_errors::ProgramError::PrimeDiffers(p),
        ) && p@ == program_json.prime@),
        (program_json.prime@ == PRIME_STR@ && entrypoint_missing(
            program_json.identifiers@,
            entrypoint,
        )) ==> (r matches Err(
            crate::types::errors::program_errors::ProgramError::EntrypointNotFound(n),
        ) && n@ == entrypoint.unwrap()@),
        (program_json.prime@ == PRIME_STR@ && !entrypoint_missing(
            program_json.identifiers@,
            entrypoint,
        )) ==> (match crate::types::program::valueless_const(program_json.identifiers@, 0) {
            Some(i) => 0 <= i < program_json.identifiers@.len() && (r matches Err(
                crate::types::errors::program_errors::ProgramError::ConstWithoutValue(n),
            ) && n@ == program_json.identifiers@[i].0@),
            None => r is Ok,
        }),
        r matches Ok(program) ==> {
            &&& program_json.prime@ == PRIME_STR@
            &&& program.builtins == program_json.builtins
            &&& program.shared_program_data.data == program_json.data
            &&& program.shared_program_data.hints == program_json.hints
            &&& program.shared_program_data.identifiers == program_json.identifiers
            &&& program.shared_program_data.reference_manager == program_json.reference_manager
            &&& program.shared_program_data.main == (match entrypoint {
                Some(e) => pc_of(program_json.identifiers@, "__main__."@ + e@),
                None => None,
            })
            &&& program.shared_program_data.start == pc_of(
                program_json.identifiers@,
                "__main__.__start__"@,
            )
            &&& program.shared_program_data.end == pc_of(
                program_json.identifiers@,
                "__main__.__end__"@,
            )
            &&& program.shared_program_data.error_message_attributes@ == error_messages(
                program_json.attributes@,
                program_json.attributes@.len() as int,
            )
            &&& program.shared_program_data.instruction_locations == (match program_json.debug_info {
                Some(info) => Some(info.instruction_locations),
                None => None,
            })
            &&& crate::types::program::valueless_const(program_json.identifiers@, 0) is None
            &&& crate::types::program::constants_view(program.constants@)
                == crate::types::program::constants_of(
                program_json.identifiers@,
                program_json.identifiers@.len() as int,
            )
        },
{
    if program_json.prime != String::from_str(PRIME_STR) {
        return Err(
            crate::types::errors::program_errors::ProgramError::PrimeDiffers(program_json.prime),
        );
    }
    let entrypoint_pc = match entrypoint {
        Some(e) => {
            let mut name = String::from_str("__main__.");
            name.append(e);
            match crate::types::program::find_identifier(&program_json.identifiers, name.as_str()) {
                Some(identifier) => identifier.pc,
                None => {
                    return Err(
                        crate::types::errors::program_errors::ProgramError::EntrypointNotFound(
                            String::from_str(e),
                        ),
                    );
                },
            }
        },
        None => None,
    };
    let start = identifier_pc(&program_json.identifiers, "__main__.__start__");
    let end = identifier_pc(&program_json.identifiers, "__main__.__end__");
    let constants = match crate::types::program::collect_constants(&program_json.identifiers) {
        Ok(constants) => constants,
        Err(e) => {
            return Err(e);
        },
    };
    let shared_program_data = crate::types::program::SharedProgramData {
        data: program_json.data,
        hints: program_json.hints,
        main: entrypoint_pc,
        start,
        end,
        error_message_attributes: keep_error_messages(program_json.attributes),
        instruction_locations: match program_json.debug_info {
            Some(info) => Some(info.instruction_locations),
            None => None,
        },
        identifiers: program_json.identifiers,
        reference_manager: program_json.reference_manager,
    };
    Ok(
        crate::types::program::Program {
            shared_program_data,
            constants,
            builtins: program_json.builtins,
        },
    )
}

/// The description of a program, with an empty main scope and compiler
/// version.
pub fn parse_program(program: crate::types::program::Program) -> (r: ProgramJson)
    ensures
        r.prime@ == PRIME_STR@,
        r.builtins == program.builtins,
        r.data == program.shared_program_data.data,
        r.identifiers == program.shared_program_data.identifiers,
        r.hints == program.shared_program_data.hints,
        r.reference_manager == program.shared_program_data.reference_manager,
        r.attributes == program.shared_program_data.error_message_attributes,
        r.debug_info == (match program.shared_program_data.instruction_locations {
            Some(instruction_locations) => Some(DebugInfo { instruction_locations }),
            None => None,
        }),
        r.main_scope@.len() == 0,
        r.compiler_version@.len() == 0,
{
    proof {
        reveal_strlit("");
    }
    ProgramJson {
        prime: String::from_str(PRIME_STR),
        builtins: program.builtins,
        data: program.shared_program_data.data,
        identifiers: program.shared_program_data.identifiers,
        hints: program.shared_program_data.hints,
        reference_manager: program.shared_program_data.reference_manager,
        attributes: program.shared_program_data.error_message_attributes,
        debug_info: match program.shared_program_data.instruction_locations {
            Some(instruction_locations) => Some(DebugInfo { instruction_locations }),
            None => None,
        },
        main_scope: String::from_str(""),
        compiler_version: String::from_str(""),
    }
}

/// Why a hexadecimal number cannot be read.
#[derive(Debug, Clone, Copy, PartialEq, Eq, Structural)]
pub enum HexError {
    /// The text does not start with `0x`.
    Prefix,
    /// What follows the prefix is no hexadecimal number.
    Digits,
}

/// What `deserialize_felt_hex` reads from `value`: the residue of the
/// hexadecimal number after the prefix `0x`.
pub open spec fn felt_hex_spec(value: Seq<char>) -> Result<nat, HexError> {
    if value.len() < 2 || value.subrange(0, 2) != "0x"@ {
        Err(HexError::Prefix)
    } else {
        match crate::felt::big::parsed_unsigned(
            vstd::utf8::encode_utf8(value.subrange(2, value.len() as int)),
            16,
        ) {
            Some(v) => Ok(v % crate::felt::prime()),
            None => Err(HexError::Digits),
        }
    }
}

/// Reads a field element from its hexadecimal text, which starts with `0x`.
pub fn deserialize_felt_hex(value: &str) -> (r: Result<Felt252, HexError>)
    ensures
        match felt_hex_spec(value@) {
            Ok(v) => r matches Ok(felt) && felt@ == v,
            Err(e) => r == Err::<Felt252, HexError>(e),
        },
{
    proof {
        reveal_strlit("0x");
    }
    let n = value.unicode_len();
    if n < 2 {
        return Err(HexError::Prefix);
    }
    let prefix = String::from_str(value.substring_char(0, 2));
    if prefix != String::from_str("0x") {
        return Err(HexError::Prefix);
    }
    let digits = value.substring_char(2, n);
    match Felt252::from_str_radix(digits, 16) {
        Ok(felt) => Ok(felt),
        Err(_) => Err(HexError::Digits),
    }
}

/// Whether `cell` is the field element that the hexadecimal `text` reads as.
pub open spec fn holds_hex(text: Seq<char>, cell: MaybeRelocatable) -> bool {
    felt_hex_spec(text) matches Ok(v) && cell.is_int_with(v)
}

/// Reads the bytecode of a program from the hexadecimal texts of its cells. On
/// the first text that cannot be read, fails with its error.
pub fn deserialize_array_of_bigint_hex(values: &Vec<String>) -> (r: Result<
    Vec<MaybeRelocatable>,
    HexError,
>)
    ensures
        r matches Ok(data) ==> data@.len() == values@.len() && forall|i: int|
            0 <= i < values@.len() ==> holds_hex(values@[i]@, #[trigger] data@[i]),
        r matches Err(e) ==> exists|i: int|
            0 <= i < values@.len() && #[trigger] felt_hex_spec(values@[i]@) == Err::<
                nat,
                HexError,
            >(e),
{
    let mut data: Vec<MaybeRelocatable> = Vec::new();
    let mut i: usize = 0;
    while i < values.len()
        invariant
            i <= values@.len(),
            data@.len() == i,
            forall|k: int| 0 <= k < i ==> holds_hex(values@[k]@, #[trigger] data@[k]),
        decreases values@.len() - i,
    {
        match deserialize_felt_hex(values[i].as_str()) {
            Ok(felt) => {
                let ghost before = data@;
                data.push(MaybeRelocatable::Int(felt));
                assert(holds_hex(values@[i as int]@, data@[i as int]));
                assert(forall|k: int| 0 <= k < i ==> data@[k] == before[k]);
            },
            Err(e) => {
                assert(felt_hex_spec(values@[i as int]@) == Err::<nat, HexError>(e));
                return Err(e);
            },
        }
        i = i + 1;
    }
    Ok(data)
}

/// The entries of a map of names to numbers, where a later entry for a name
/// replaces an earlier one.
pub fn deserialize_map_to_string_and_usize_hashmap(entries: Vec<(String, usize)>) -> (r: Vec<
    (String, usize),
>)
    ensures
        forall|i: int, j: int| 0 <= i < j < r@.len() ==> r@[i].0@ != r@[j].0@,
        forall|name: Seq<char>| #[trigger] last_entry(r@, name, r@.len() as int) == last_entry(
            entries@,
            name,
            entries@.len() as int,
        ),
{
    let mut out: Vec<(String, usize)> = Vec::new();
    let mut i: usize = 0;
    while i < entries.len()
        invariant
            i <= entries@.len(),
            forall|a: int, b: int| 0 <= a < b < out@.len() ==> out@[a].0@ != out@[b].0@,
            forall|name: Seq<char>| #[trigger] last_entry(out@, name, out@.len() as int)
                == last_entry(entries@, name, i as int),
        decreases entries@.len() - i,
    {
        let key = entries[i].0.clone();
        let value = entries[i].1;
        let ghost before = out@;
        // replace the value of an entry of this name, or add one
        let mut j: usize = 0;
        let mut found = false;
        while j < out.len()
            invariant
                j <= out@.len(),
                out@.len() == before.len(),
                i < entries@.len(),
                key@ == entries@[i as int].0@,
                forall|k: int| 0 <= k < out@.len() ==> out@[k].0@ == before[k].0@,
                !found ==> forall|k: int| 0 <= k < j ==> out@[k].0@ != key@,
                !found ==> out@ == before,
                found ==> exists|k: int|
                    0 <= k < out@.len() && out@[k].0@ == key@ && out@[k].1 == value && forall|
                        m: int,
                    |
                        0 <= m < out@.len() && m != k ==> out@[m] == before[m],
            decreases out@.len() - j,
        {
            if !found && out[j].0 == key {
                let name = out[j].0.clone();
                out[j] = (name, value);
                found = true;
                assert(out@[j as int].0@ == key@ && out@[j as int].1 == value);
            }
            j = j + 1;
        }
        if !found {
            assert(forall|k: int| 0 <= k < before.len() ==> before[k].0@ != key@);
            out.push((key, value));
            assert(forall|k: int| 0 <= k < before.len() ==> out@[k] == before[k]);
            assert(out@[before.len() as int].0@ == key@);
        }
        assert(forall|k: int| 0 <= k < before.len() ==> out@[k].0@ == before[k].0@);
        assert forall|a: int, b: int| 0 <= a < b < out@.len() implies out@[a].0@ != out@[b].0@ by {
            if b < before.len() {
                assert(before[a].0@ != before[b].0@);
            }
        }
        proof {
            assert(key@ == entries@[i as int].0@ && value == entries@[i as int].1);
            assert forall|name: Seq<char>| #[trigger] last_entry(out@, name, out@.len() as int)
                == last_entry(entries@, name, i + 1) by {
                lemma_last_entry_unique(before, name);
                lemma_last_entry_unique(out@, name);
                if !found {
                    lemma_last_entry_prefix(before, out@, name, before.len() as int);
                } else {
                    let k = choose|k: int|
                        0 <= k < out@.len() && out@[k].0@ == key@ && out@[k].1 == value
                            && forall|m: int|
                            0 <= m < out@.len() && m != k ==> out@[m] == before[m];
                    if name != key@ {
                        lemma_last_entry_same_others(before, out@, name, before.len() as int);
                    }
                }
            }
        }
        i = i + 1;
    }
    out
}

/// The value of the last entry called `name` among the first `n` entries.
pub open spec fn last_entry(entries: Seq<(String, usize)>, name: Seq<char>, n: int) -> Option<
    usize,
>
    decreases n,
{
    if n <= 0 {
        None
    } else if entries[n - 1].0@ == name {
        Some(entries[n - 1].1)
    } else {
        last_entry(entries, name, n - 1)
    }
}

/// In a list without repeated names, the value of a name is that of the one
/// entry that has it.
pub proof fn lemma_last_entry_unique(entries: Seq<(String, usize)>, name: Seq<char>)
    requires
        forall|a: int, b: int| 0 <= a < b < entries.len() ==> entries[a].0@ != entries[b].0@,
    ensures
        forall|k: int|
            0 <= k < entries.len() && entries[k].0@ == name ==> last_entry(
                entries,
                name,
                entries.len() as int,
            ) == Some(entries[k].1),
        (forall|k: int| 0 <= k < entries.len() ==> entries[k].0@ != name) ==> last_entry(
            entries,
            name,
            entries.len() as int,
        ) is None,
{
    lemma_last_entry_found(entries, name, entries.len() as int);
}

/// What a lookup among the first `n` entries finds.
pub proof fn lemma_last_entry_found(entries: Seq<(String, usize)>, name: Seq<char>, n: int)
    requires
        0 <= n <= entries.len(),
        forall|a: int, b: int| 0 <= a < b < entries.len() ==> entries[a].0@ != entries[b].0@,
    ensures
        forall|k: int|
            0 <= k < n && entries[k].0@ == name ==> last_entry(entries, name, n) == Some(
                entries[k].1,
            ),
        (forall|k: int| 0 <= k < n ==> entries[k].0@ != name) ==> last_entry(entries, name, n)
            is None,
    decreases n,
{
    if n > 0 {
        lemma_last_entry_found(entries, name, n - 1);
    }
}

/// Two lists that agree on their first `n` entries give the same answer there.
pub proof fn lemma_last_entry_prefix(
    a: Seq<(String, usize)>,
    b: Seq<(String, usize)>,
    name: Seq<char>,
    n: int,
)
    requires
        0 <= n <= a.len(),
        n <= b.len(),
        forall|i: int| 0 <= i < n ==> a[i] == b[i],
    ensures
        last_entry(a, name, n) == last_entry(b, name, n),
    decreases n,
{
    if n > 0 {
        lemma_last_entry_prefix(a, b, name, n - 1);
    }
}

/// Two lists with the same names that agree on every entry not called `key`
/// give the same answer for every other name.
pub proof fn lemma_last_entry_same_others(
    a: Seq<(String, usize)>,
    b: Seq<(String, usize)>,
    name: Seq<char>,
    n: int,
)
    requires
        0 <= n <= a.len(),
        a.len() == b.len(),
        forall|i: int| 0 <= i < n ==> a[i].0@ == b[i].0@,
        forall|i: int| 0 <= i < n && a[i].0@ == name ==> a[i] == b[i],
    ensures
        last_entry(a, name, n) == last_entry(b, name, n),
    decreases n,
{
    if n > 0 {
        lemma_last_entry_same_others(a, b, name, n - 1);
    }
}

} // verus!
