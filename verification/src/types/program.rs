//! A program ready to run: its bytecode, its builtins and what the hints and
//! the diagnostics need.

use crate::felt::{Felt252, PRIME_STR};
use crate::serde::deserialize_program::{
    ApTracking, Attribute, BuiltinName, FlowTrackingData, HintParams, Identifier,
    InstructionLocation, ReferenceManager,
};
use crate::serde::serialize_program::{decimal, decimal_string};
use crate::types::errors::program_errors::ProgramError;
use crate::types::relocatable::MaybeRelocatable;
use vstd::prelude::*;
use vstd::string::StringExecFns;

verus! {

/// The parts of a program that a run reads but seldom.
#[derive(Clone, Debug, PartialEq, Eq)]
pub struct SharedProgramData {
    pub data: Vec<MaybeRelocatable>,
    pub hints: Vec<(usize, Vec<HintParams>)>,
    pub main: Option<usize>,
    /// The start label, used in proof mode only.
    pub start: Option<usize>,
    /// The end label, used in proof mode only.
    pub end: Option<usize>,
    pub error_message_attributes: Vec<Attribute>,
    pub instruction_locations: Option<Vec<(usize, InstructionLocation)>>,
    pub identifiers: Vec<(String, Identifier)>,
    pub reference_manager: ReferenceManager,
}

/// A program.
#[derive(Clone, Debug, PartialEq, Eq)]
pub struct Program {
    pub shared_program_data: SharedProgramData,
    /// The constants of the program: the identifiers of type `const`, in the
    /// order of the identifiers.
    pub constants: Vec<(String, Felt252)>,
    pub builtins: Vec<BuiltinName>,
}

/// Whether no name occurs twice among the entries: the list is a map from
/// names.
pub open spec fn names_once<T>(entries: Seq<(String, T)>) -> bool {
    forall|i: int, j: int|
        0 <= i < j < entries.len() ==> (#[trigger] entries[i]).0@ != (#[trigger] entries[j]).0@
}

/// Whether no key occurs twice among the entries: the list is a map from
/// program counters.
pub open spec fn keys_once<T>(entries: Seq<(usize, T)>) -> bool {
    forall|i: int, j: int|
        0 <= i < j < entries.len() ==> (#[trigger] entries[i]).0 != (#[trigger] entries[j]).0
}

/// Whether an identifier names a constant.
pub open spec fn is_const(identifier: Identifier) -> bool {
    identifier.type_ matches Some(t) && t@ == "const"@
}

/// The constants among the first `n` identifiers, each with its name and value,
/// in order. A constant without value is left out.
pub open spec fn constants_of(identifiers: Seq<(String, Identifier)>, n: int) -> Seq<
    (Seq<char>, Felt252),
>
    decreases n,
{
    if n <= 0 {
        Seq::empty()
    } else {
        let rest = constants_of(identifiers, n - 1);
        let (name, identifier) = identifiers[n - 1];
        if is_const(identifier) && identifier.value is Some {
            rest.push((name@, identifier.value.unwrap()))
        } else {
            rest
        }
    }
}

/// Where no identifier occurs twice, no constant does: each constant among
/// the first `n` identifiers carries the name of one of them, and the
/// constants come in the order of the identifiers.
pub proof fn lemma_constants_once(identifiers: Seq<(String, Identifier)>, n: int)
    requires
        names_once(identifiers),
        0 <= n <= identifiers.len(),
    ensures
        forall|i: int, j: int|
            0 <= i < j < constants_of(identifiers, n).len() ==> (#[trigger] constants_of(
                identifiers,
                n,
            )[i]).0 != (#[trigger] constants_of(identifiers, n)[j]).0,
        forall|i: int|
            0 <= i < constants_of(identifiers, n).len() ==> exists|k: int|
                0 <= k < n && (#[trigger] identifiers[k]).0@ == (#[trigger] constants_of(
                    identifiers,
                    n,
                )[i]).0,
    decreases n,
{
    if n > 0 {
        lemma_constants_once(identifiers, n - 1);
        let rest = constants_of(identifiers, n - 1);
        let all = constants_of(identifiers, n);
        assert forall|i: int| 0 <= i < all.len() implies exists|k: int|
            0 <= k < n && (#[trigger] identifiers[k]).0@ == (#[trigger] all[i]).0 by {
            if i < rest.len() {
                assert(all[i] == rest[i]);
                let k = choose|k: int|
                    0 <= k < n - 1 && (#[trigger] identifiers[k]).0@ == rest[i].0;
                assert(0 <= k < n && identifiers[k].0@ == all[i].0);
            } else {
                assert(identifiers[n - 1].0@ == all[i].0);
            }
        }
        assert forall|i: int, j: int| 0 <= i < j < all.len() implies (#[trigger] all[i]).0 != (
        #[trigger] all[j]).0 by {
            if j < rest.len() {
                assert(all[i] == rest[i] && all[j] == rest[j]);
            } else {
                assert(all[i] == rest[i]);
                let k = choose|k: int|
                    0 <= k < n - 1 && (#[trigger] identifiers[k]).0@ == rest[i].0;
                assert(identifiers[k].0@ != identifiers[n - 1].0@);
            }
        }
    }
}

/// The index of the first constant without value among the identifiers from
/// `from` on.
pub open spec fn valueless_const(identifiers: Seq<(String, Identifier)>, from: int) -> Option<int>
    decreases identifiers.len() - from,
{
    if from < 0 || from >= identifiers.len() {
        None
    } else if is_const(identifiers[from].1) && identifiers[from].1.value is None {
        Some(from)
    } else {
        valueless_const(identifiers, from + 1)
    }
}

/// The names and values of a list of constants.
pub open spec fn constants_view(constants: Seq<(String, Felt252)>) -> Seq<(Seq<char>, Felt252)> {
    Seq::new(constants.len(), |i: int| (constants[i].0@, constants[i].1))
}

/// The index of the first entry of `identifiers` from `from` on whose name is
/// `name`.
pub open spec fn position_of(identifiers: Seq<(String, Identifier)>, name: Seq<char>, from: int) -> Option<
    int,
>
    decreases identifiers.len() - from,
{
    if from < 0 || from >= identifiers.len() {
        None
    } else if identifiers[from].0@ == name {
        Some(from)
    } else {
        position_of(identifiers, name, from + 1)
    }
}

/// Finds the first identifier called `name`.
pub fn find_identifier<'a>(identifiers: &'a Vec<(String, Identifier)>, name: &str) -> (r: Option<
    &'a Identifier,
>)
    ensures
        match position_of(identifiers@, name@, 0) {
            Some(i) => 0 <= i < identifiers@.len() && r == Some(&identifiers@[i].1),
            None => r.is_none(),
        },
{
    let wanted = String::from_str(name);
    let mut i: usize = 0;
    while i < identifiers.len()
        invariant
            i <= identifiers@.len(),
            wanted@ == name@,
            position_of(identifiers@, name@, 0) == position_of(identifiers@, name@, i as int),
        decreases identifiers@.len() - i,
    {
        if identifiers[i].0 == wanted {
            return Some(&identifiers[i].1);
        }
        i = i + 1;
    }
    None
}

/// Collects the constants among the identifiers: see `constants_of`. Fails at
/// the first constant without value, with its name.
pub fn collect_constants(identifiers: &Vec<(String, Identifier)>) -> (r: Result<
    Vec<(String, Felt252)>,
    ProgramError,
>)
    ensures
        match valueless_const(identifiers@, 0) {
            Some(i) => 0 <= i < identifiers@.len() && (r matches Err(
                ProgramError::ConstWithoutValue(name),
            ) && name@ == identifiers@[i].0@),
            None => r matches Ok(constants) && constants_view(constants@) == constants_of(
                identifiers@,
                identifiers@.len() as int,
            ),
        },
{
    let const_type = String::from_str("const");
    let mut constants: Vec<(String, Felt252)> = Vec::new();
    let mut i: usize = 0;
    while i < identifiers.len()
        invariant
            i <= identifiers@.len(),
            const_type@ == "const"@,
            valueless_const(identifiers@, 0) == valueless_const(identifiers@, i as int),
            constants_view(constants@) =~= constants_of(identifiers@, i as int),
        decreases identifiers@.len() - i,
    {
        let is_constant = match &identifiers[i].1.type_ {
            Some(t) => *t == const_type,
            None => false,
        };
        if is_constant {
            match identifiers[i].1.value {
                Some(value) => {
                    constants.push((identifiers[i].0.clone(), value));
                },
                None => {
                    return Err(ProgramError::ConstWithoutValue(identifiers[i].0.clone()));
                },
            }
        }
        i = i + 1;
    }
    Ok(constants)
}

impl Program {
    /// Whether the lists of the program are maps: no identifier, constant,
    /// program counter with hints or instruction location occurs twice.
    pub open spec fn well_formed(&self) -> bool {
        &&& names_once(self.shared_program_data.identifiers@)
        &&& names_once(self.constants@)
        &&& keys_once(self.shared_program_data.hints@)
        &&& self.shared_program_data.instruction_locations matches Some(locations) ==> keys_once(
            locations@,
        )
    }

    /// Puts a program together from its parts and collects its constants.
    /// Fails where a constant has no value. Where each list it is given is a
    /// map, so is each list of the program.
    pub fn new(
        builtins: Vec<BuiltinName>,
        data: Vec<MaybeRelocatable>,
        main: Option<usize>,
        hints: Vec<(usize, Vec<HintParams>)>,
        reference_manager: ReferenceManager,
        identifiers: Vec<(String, Identifier)>,
        error_message_attributes: Vec<Attribute>,
        instruction_locations: Option<Vec<(usize, InstructionLocation)>>,
    ) -> (r: Result<Program, ProgramError>)
        ensures
            match valueless_const(identifiers@, 0) {
                Some(i) => 0 <= i < identifiers@.len() && (r matches Err(
                    ProgramError::ConstWithoutValue(name),
                ) && name@ == identifiers@[i].0@),
                None => r matches Ok(program) && constants_view(program.constants@)
                    == constants_of(identifiers@, identifiers@.len() as int) && program.builtins
                    == builtins && program.shared_program_data == (SharedProgramData {
                    data,
                    hints,
                    main,
                    start: None,
                    end: None,
                    error_message_attributes,
                    instruction_locations,
                    identifiers,
                    reference_manager,
                }),
            },
            names_once(identifiers@) && keys_once(hints@) && (instruction_locations matches Some(
                locations,
            ) ==> keys_once(locations@)) ==> (r matches Ok(program) ==> program.well_formed()),
    {
        let constants = match collect_constants(&identifiers) {
            Ok(constants) => constants,
            Err(e) => {
                return Err(e);
            },
        };
        proof {
            if names_once(identifiers@) {
                lemma_constants_once(identifiers@, identifiers@.len() as int);
                let view = constants_view(constants@);
                assert forall|i: int, j: int| 0 <= i < j < constants@.len() implies (
                #[trigger] constants@[i]).0@ != (#[trigger] constants@[j]).0@ by {
                    assert(view[i].0 == constants@[i].0@);
                    assert(view[j].0 == constants@[j].0@);
                }
            }
        }
        Ok(
            Program {
                shared_program_data: SharedProgramData {
                    data,
                    hints,
                    main,
                    start: None,
                    end: None,
                    error_message_attributes,
                    instruction_locations,
                    identifiers,
                    reference_manager,
                },
                constants,
                builtins,
            },
        )
    }

    /// The program without bytecode, builtins or names.
    pub fn default() -> (r: Program)
        ensures
            r.shared_program_data.data@.len() == 0,
            r.shared_program_data.hints@.len() == 0,
            r.shared_program_data.main.is_none(),
            r.shared_program_data.start.is_none(),
            r.shared_program_data.end.is_none(),
            r.shared_program_data.error_message_attributes@.len() == 0,
            r.shared_program_data.instruction_locations.is_none(),
            r.shared_program_data.identifiers@.len() == 0,
            r.shared_program_data.reference_manager.references@.len() == 0,
            r.constants@.len() == 0,
            r.builtins@.len() == 0,
            r.well_formed(),
    {
        Program {
            shared_program_data: SharedProgramData {
                data: Vec::new(),
                hints: Vec::new(),
                main: None,
                start: None,
                end: None,
                error_message_attributes: Vec::new(),
                instruction_locations: None,
                identifiers: Vec::new(),
                reference_manager: ReferenceManager { references: Vec::new() },
            },
            constants: Vec::new(),
            builtins: Vec::new(),
        }
    }

    /// The prime of the field the program computes in, in hexadecimal.
    pub fn prime(&self) -> (r: &'static str)
        ensures
            r@ == PRIME_STR@,
    {
        PRIME_STR
    }

    /// The builtins of the program, in the order it declares them.
    pub fn iter_builtins(&self) -> (r: &Vec<BuiltinName>)
        ensures
            *r == self.builtins,
    {
        &self.builtins
    }

    /// The bytecode.
    pub fn iter_data(&self) -> (r: &Vec<MaybeRelocatable>)
        ensures
            *r == self.shared_program_data.data,
    {
        &self.shared_program_data.data
    }

    /// The number of cells of bytecode.
    pub fn data_len(&self) -> (r: usize)
        ensures
            r == self.shared_program_data.data@.len(),
    {
        self.shared_program_data.data.len()
    }

    /// The number of builtins.
    pub fn builtins_len(&self) -> (r: usize)
        ensures
            r == self.builtins@.len(),
    {
        self.builtins.len()
    }

    /// The identifier called `id`, the first of that name.
    pub fn get_identifier(&self, id: &str) -> (r: Option<&Identifier>)
        ensures
            match position_of(self.shared_program_data.identifiers@, id@, 0) {
                Some(i) => 0 <= i < self.shared_program_data.identifiers@.len() && r == Some(
                    &self.shared_program_data.identifiers@[i].1,
                ),
                None => r.is_none(),
            },
    {
        find_identifier(&self.shared_program_data.identifiers, id)
    }

    /// The identifiers with their names, in order.
    pub fn iter_identifiers(&self) -> (r: &Vec<(String, Identifier)>)
        ensures
            *r == self.shared_program_data.identifiers,
    {
        &self.shared_program_data.identifiers
    }

    /// The builtins of the program, in the order it declares them.
    pub fn builtins(&self) -> (r: &Vec<BuiltinName>)
        ensures
            *r == self.builtins,
    {
        &self.builtins
    }

    /// The bytecode.
    pub fn data(&self) -> (r: &Vec<MaybeRelocatable>)
        ensures
            *r == self.shared_program_data.data,
    {
        &self.shared_program_data.data
    }

    /// The hints, each list with the program counter it belongs to.
    pub fn hints(&self) -> (r: &Vec<(usize, Vec<HintParams>)>)
        ensures
            *r == self.shared_program_data.hints,
    {
        &self.shared_program_data.hints
    }

    /// The program counter of the entry point.
    pub fn main(&self) -> (r: &Option<usize>)
        ensures
            *r == self.shared_program_data.main,
    {
        &self.shared_program_data.main
    }

    /// The program counter of the start label.
    pub fn start(&self) -> (r: &Option<usize>)
        ensures
            *r == self.shared_program_data.start,
    {
        &self.shared_program_data.start
    }

    /// The program counter of the end label.
    pub fn end(&self) -> (r: &Option<usize>)
        ensures
            *r == self.shared_program_data.end,
    {
        &self.shared_program_data.end
    }

    /// The attributes that carry error messages.
    pub fn error_message_attributes(&self) -> (r: &Vec<Attribute>)
        ensures
            *r == self.shared_program_data.error_message_attributes,
    {
        &self.shared_program_data.error_message_attributes
    }

    /// The locations of the instructions, where the program carries them.
    pub fn instruction_locations(&self) -> (r: &Option<Vec<(usize, InstructionLocation)>>)
        ensures
            *r == self.shared_program_data.instruction_locations,
    {
        &self.shared_program_data.instruction_locations
    }

    /// The identifiers with their names, in order.
    pub fn identifiers(&self) -> (r: &Vec<(String, Identifier)>)
        ensures
            *r == self.shared_program_data.identifiers,
    {
        &self.shared_program_data.identifiers
    }

    /// The constants with their names.
    pub fn constants(&self) -> (r: &Vec<(String, Felt252)>)
        ensures
            *r == self.constants,
    {
        &self.constants
    }

    /// The references of the program.
    pub fn reference_manager(&self) -> (r: &ReferenceManager)
        ensures
            *r == self.shared_program_data.reference_manager,
    {
        &self.shared_program_data.reference_manager
    }
}

/// What a program takes from a compiled contract class: its bytecode and the
/// program counters at which it has hints.
#[derive(Clone, Debug, PartialEq, Eq)]
pub struct CasmParts {
    pub bytecode: Vec<Felt252>,
    pub hint_pcs: Vec<usize>,
}

/// Whether `hint` stands for the hints at program counter `pc`: its code is
/// the program counter in decimal, and it has neither scopes nor references.
pub open spec fn is_placeholder_hint(hint: HintParams, pc: usize) -> bool {
    &&& hint.code@ == decimal(pc as nat)
    &&& hint.accessible_scopes@.len() == 0
    &&& hint.flow_tracking_data.ap_tracking == (ApTracking { group: 0, offset: 0 })
    &&& hint.flow_tracking_data.reference_ids@.len() == 0
}

impl Program {
    /// The program of a compiled contract class: the bytecode is its data, and
    /// each program counter with hints gets one hint that stands for them, the
    /// hints themselves being kept by whoever runs them. It has no builtins,
    /// entry point, identifiers or references.
    pub fn try_from_casm(parts: CasmParts) -> (r: Result<Program, ProgramError>)
        ensures
            r matches Ok(program) && {
                &&& program.builtins@.len() == 0
                &&& program.constants@.len() == 0
                &&& program.shared_program_data.main is None
                &&& program.shared_program_data.start is None
                &&& program.shared_program_data.end is None
                &&& program.shared_program_data.identifiers@.len() == 0
                &&& program.shared_program_data.error_message_attributes@.len() == 0
                &&& program.shared_program_data.instruction_locations is None
                &&& program.shared_program_data.reference_manager.references@.len() == 0
                &&& program.shared_program_data.data@.len() == parts.bytecode@.len()
                &&& forall|i: int|
                    0 <= i < parts.bytecode@.len() ==> #[trigger] program.shared_program_data.data@[i]
                        == MaybeRelocatable::Int(parts.bytecode@[i])
                &&& program.shared_program_data.hints@.len() == parts.hint_pcs@.len()
                &&& forall|i: int|
                    0 <= i < parts.hint_pcs@.len() ==> (
                    #[trigger] program.shared_program_data.hints@[i]).0 == parts.hint_pcs@[i]
                        && program.shared_program_data.hints@[i].1@.len() == 1
                        && is_placeholder_hint(
                        program.shared_program_data.hints@[i].1@[0],
                        parts.hint_pcs@[i],
                    )
            },
            (forall|i: int, j: int|
                0 <= i < j < parts.hint_pcs@.len() ==> parts.hint_pcs@[i] != parts.hint_pcs@[j])
                ==> (r matches Ok(program) && program.well_formed()),
    {
        let mut data: Vec<MaybeRelocatable> = Vec::new();
        let mut i: usize = 0;
        while i < parts.bytecode.len()
            invariant
                i <= parts.bytecode@.len(),
                data@.len() == i,
                forall|k: int|
                    0 <= k < i ==> #[trigger] data@[k] == MaybeRelocatable::Int(parts.bytecode@[k]),
            decreases parts.bytecode@.len() - i,
        {
            data.push(MaybeRelocatable::Int(parts.bytecode[i]));
            i = i + 1;
        }
        let mut hints: Vec<(usize, Vec<HintParams>)> = Vec::new();
        let mut j: usize = 0;
        while j < parts.hint_pcs.len()
            invariant
                j <= parts.hint_pcs@.len(),
                hints@.len() == j,
                forall|k: int|
                    0 <= k < j ==> (#[trigger] hints@[k]).0 == parts.hint_pcs@[k] && hints@[k].1@.len()
                        == 1 && is_placeholder_hint(hints@[k].1@[0], parts.hint_pcs@[k]),
            decreases parts.hint_pcs@.len() - j,
        {
            let pc = parts.hint_pcs[j];
            let mut at_pc: Vec<HintParams> = Vec::new();
            at_pc.push(
                HintParams {
                    code: decimal_string(pc as u64),
                    accessible_scopes: Vec::new(),
                    flow_tracking_data: FlowTrackingData {
                        ap_tracking: ApTracking::new(),
                        reference_ids: Vec::new(),
                    },
                },
            );
            hints.push((pc, at_pc));
            j = j + 1;
        }
        let identifiers: Vec<(String, Identifier)> = Vec::new();
        assert(valueless_const(identifiers@, 0) is None);
        assert(constants_of(identifiers@, 0) =~= Seq::empty());
        let r = Program::new(
            Vec::new(),
            data,
            None,
            hints,
            ReferenceManager { references: Vec::new() },
            identifiers,
            Vec::new(),
            None,
        );
        proof {
            if r is Ok {
                assert(constants_view(r.unwrap().constants@).len() == 0);
            }
        }
        r
    }
}

} // verus!
