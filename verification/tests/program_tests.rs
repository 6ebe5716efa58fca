use cairo_vm::felt::{Felt252, PRIME_STR};
use cairo_vm::serde::deserialize_program::{BuiltinName, Identifier, ReferenceManager};
use cairo_vm::types::program::{CasmParts, Program, SharedProgramData};
use cairo_vm::types::relocatable::MaybeRelocatable;

#[test]
fn program_new() {
    let reference_manager = ReferenceManager {
        references: Vec::new(),
    };

    let builtins: Vec<BuiltinName> = Vec::new();
    let data: Vec<MaybeRelocatable> = vec![
        MaybeRelocatable::from(Felt252::new(5189976364521848832_i128)),
        MaybeRelocatable::from(Felt252::new(1000_i128)),
        MaybeRelocatable::from(Felt252::new(5189976364521848832_i128)),
        MaybeRelocatable::from(Felt252::new(2000_i128)),
        MaybeRelocatable::from(Felt252::new(5201798304953696256_i128)),
        MaybeRelocatable::from(Felt252::new(2345108766317314046_i128)),
    ];

    let program = Program::new(
        builtins.clone(),
        data.clone(),
        None,
        Vec::new(),
        reference_manager,
        Vec::new(),
        Vec::new(),
        None,
    )
    .unwrap();

    assert_eq!(program.builtins, builtins);
    assert_eq!(program.shared_program_data.data, data);
    assert_eq!(program.shared_program_data.main, None);
    assert_eq!(program.shared_program_data.identifiers, Vec::new());
}

#[test]
fn program_new_program_with_identifiers() {
    let reference_manager = ReferenceManager {
        references: Vec::new(),
    };

    let builtins: Vec<BuiltinName> = Vec::new();

    let data: Vec<MaybeRelocatable> = vec![
        MaybeRelocatable::from(Felt252::new(5189976364521848832_i128)),
        MaybeRelocatable::from(Felt252::new(1000_i128)),
        MaybeRelocatable::from(Felt252::new(5189976364521848832_i128)),
        MaybeRelocatable::from(Felt252::new(2000_i128)),
        MaybeRelocatable::from(Felt252::new(5201798304953696256_i128)),
        MaybeRelocatable::from(Felt252::new(2345108766317314046_i128)),
    ];

    let mut identifiers: Vec<(String, Identifier)> = Vec::new();

    identifiers.push((String::from("__main__.main"), Identifier {
            pc: Some(0),
            type_: Some(String::from("function")),
            value: None,
            full_name: None,
            members: None,
            cairo_type: None,
            decorators: None,
            size: None,
            destination: None,
            references: None,
        }));

    identifiers.push((String::from("__main__.main.SIZEOF_LOCALS"), Identifier {
            pc: None,
            type_: Some(String::from("const")),
            value: Some(Felt252::zero()),
            full_name: None,
            members: None,
            cairo_type: None,
            decorators: None,
            size: None,
            destination: None,
            references: None,
        }));

    let program = Program::new(
        builtins.clone(),
        data.clone(),
        None,
        Vec::new(),
        reference_manager,
        identifiers.clone(),
        Vec::new(),
        None,
    )
    .unwrap();

    assert_eq!(program.builtins, builtins);
    assert_eq!(program.shared_program_data.data, data);
    assert_eq!(program.shared_program_data.main, None);
    assert_eq!(program.shared_program_data.identifiers, identifiers);
    assert_eq!(
        program.constants,
        [("__main__.main.SIZEOF_LOCALS", Felt252::zero())]
            .into_iter()
            .map(|(key, value)| (key.to_string(), value))
            .collect::<Vec<_>>(),
    );
}

#[test]
fn program_get_prime() {
    let program = Program::default();
    assert_eq!(PRIME_STR, program.prime());
}

#[test]
fn program_iter_builtins() {
    let reference_manager = ReferenceManager {
        references: Vec::new(),
    };

    let builtins: Vec<_> = vec![BuiltinName::range_check, BuiltinName::bitwise];
    let data: Vec<_> = vec![
        MaybeRelocatable::from(Felt252::new(5189976364521848832_i128)),
        MaybeRelocatable::from(Felt252::new(1000_i128)),
        MaybeRelocatable::from(Felt252::new(5189976364521848832_i128)),
        MaybeRelocatable::from(Felt252::new(2000_i128)),
        MaybeRelocatable::from(Felt252::new(5201798304953696256_i128)),
        MaybeRelocatable::from(Felt252::new(2345108766317314046_i128)),
    ];

    let program = Program::new(
        builtins.clone(),
        data,
        None,
        Vec::new(),
        reference_manager,
        Vec::new(),
        Vec::new(),
        None,
    )
    .unwrap();

    assert_eq!(
        program.iter_builtins().clone(),
        builtins
    );

    assert_eq!(program.builtins_len(), 2);
}

#[test]
fn program_iter_data() {
    let reference_manager = ReferenceManager {
        references: Vec::new(),
    };

    let builtins: Vec<BuiltinName> = Vec::new();
    let data: Vec<MaybeRelocatable> = vec![
        MaybeRelocatable::from(Felt252::new(5189976364521848832_i128)),
        MaybeRelocatable::from(Felt252::new(1000_i128)),
        MaybeRelocatable::from(Felt252::new(5189976364521848832_i128)),
        MaybeRelocatable::from(Felt252::new(2000_i128)),
        MaybeRelocatable::from(Felt252::new(5201798304953696256_i128)),
        MaybeRelocatable::from(Felt252::new(2345108766317314046_i128)),
    ];

    let program = Program::new(
        builtins,
        data.clone(),
        None,
        Vec::new(),
        reference_manager,
        Vec::new(),
        Vec::new(),
        None,
    )
    .unwrap();

    assert_eq!(program.iter_data().clone(), data);
}

#[test]
fn program_data_len() {
    let reference_manager = ReferenceManager {
        references: Vec::new(),
    };

    let builtins: Vec<BuiltinName> = Vec::new();
    let data: Vec<MaybeRelocatable> = vec![
        MaybeRelocatable::from(Felt252::new(5189976364521848832_i128)),
        MaybeRelocatable::from(Felt252::new(1000_i128)),
        MaybeRelocatable::from(Felt252::new(5189976364521848832_i128)),
        MaybeRelocatable::from(Felt252::new(2000_i128)),
        MaybeRelocatable::from(Felt252::new(5201798304953696256_i128)),
        MaybeRelocatable::from(Felt252::new(2345108766317314046_i128)),
    ];

    let program = Program::new(
        builtins,
        data.clone(),
        None,
        Vec::new(),
        reference_manager,
        Vec::new(),
        Vec::new(),
        None,
    )
    .unwrap();

    assert_eq!(program.data_len(), data.len());
}

#[test]
fn program_get_identifier() {
    let reference_manager = ReferenceManager {
        references: Vec::new(),
    };

    let builtins: Vec<BuiltinName> = Vec::new();

    let data: Vec<MaybeRelocatable> = vec![
        MaybeRelocatable::from(Felt252::new(5189976364521848832_i128)),
        MaybeRelocatable::from(Felt252::new(1000_i128)),
        MaybeRelocatable::from(Felt252::new(5189976364521848832_i128)),
        MaybeRelocatable::from(Felt252::new(2000_i128)),
        MaybeRelocatable::from(Felt252::new(5201798304953696256_i128)),
        MaybeRelocatable::from(Felt252::new(2345108766317314046_i128)),
    ];

    let mut identifiers: Vec<(String, Identifier)> = Vec::new();

    identifiers.push((String::from("__main__.main"), Identifier {
            pc: Some(0),
            type_: Some(String::from("function")),
            value: None,
            full_name: None,
            members: None,
            cairo_type: None,
            decorators: None,
            size: None,
            destination: None,
            references: None,
        }));

    identifiers.push((String::from("__main__.main.SIZEOF_LOCALS"), Identifier {
            pc: None,
            type_: Some(String::from("const")),
            value: Some(Felt252::zero()),
            full_name: None,
            members: None,
            cairo_type: None,
            decorators: None,
            size: None,
            destination: None,
            references: None,
        }));

    let program = Program::new(
        builtins,
        data,
        None,
        Vec::new(),
        reference_manager,
        identifiers.clone(),
        Vec::new(),
        None,
    )
    .unwrap();

    assert_eq!(
        program.get_identifier("__main__.main"),
        identifiers.iter().find(|(name, _)| name == "__main__.main").map(|(_, identifier)| identifier),
    );
    assert_eq!(
        program.get_identifier("__main__.main.SIZEOF_LOCALS"),
        identifiers.iter().find(|(name, _)| name == "__main__.main.SIZEOF_LOCALS").map(|(_, identifier)| identifier),
    );
    assert_eq!(
        program.get_identifier("missing"),
        identifiers.iter().find(|(name, _)| name == "missing").map(|(_, identifier)| identifier),
    );
}

#[test]
fn iter_identifiers() {
    let reference_manager = ReferenceManager {
        references: Vec::new(),
    };

    let builtins: Vec<BuiltinName> = Vec::new();

    let data: Vec<MaybeRelocatable> = vec![
        MaybeRelocatable::from(Felt252::new(5189976364521848832_i128)),
        MaybeRelocatable::from(Felt252::new(1000_i128)),
        MaybeRelocatable::from(Felt252::new(5189976364521848832_i128)),
        MaybeRelocatable::from(Felt252::new(2000_i128)),
        MaybeRelocatable::from(Felt252::new(5201798304953696256_i128)),
        MaybeRelocatable::from(Felt252::new(2345108766317314046_i128)),
    ];

    let mut identifiers: Vec<(String, Identifier)> = Vec::new();

    identifiers.push((String::from("__main__.main"), Identifier {
            pc: Some(0),
            type_: Some(String::from("function")),
            decorators: None,
            destination: None,
            references: None,
            size: None,
            value: None,
            full_name: None,
            members: None,
            cairo_type: None,
        }));

    identifiers.push((String::from("__main__.main.SIZEOF_LOCALS"), Identifier {
            pc: None,
            type_: Some(String::from("const")),
            value: Some(Felt252::zero()),
            decorators: None,
            destination: None,
            references: None,
            size: None,
            full_name: None,
            members: None,
            cairo_type: None,
        }));

    let program = Program::new(
        builtins,
        data,
        None,
        Vec::new(),
        reference_manager,
        identifiers.clone(),
        Vec::new(),
        None,
    )
    .unwrap();

    let collected_identifiers: Vec<_> = program
        .iter_identifiers()
        .iter()
        .map(|(cairo_type, identifier)| (cairo_type.to_string(), identifier.clone()))
        .collect();

    assert_eq!(collected_identifiers, identifiers);
}

#[test]
fn program_new_program_with_invalid_identifiers() {
    let reference_manager = ReferenceManager {
        references: Vec::new(),
    };

    let builtins: Vec<BuiltinName> = Vec::new();

    let data: Vec<MaybeRelocatable> = vec![
        MaybeRelocatable::from(Felt252::new(5189976364521848832_i128)),
        MaybeRelocatable::from(Felt252::new(1000_i128)),
        MaybeRelocatable::from(Felt252::new(5189976364521848832_i128)),
        MaybeRelocatable::from(Felt252::new(2000_i128)),
        MaybeRelocatable::from(Felt252::new(5201798304953696256_i128)),
        MaybeRelocatable::from(Felt252::new(2345108766317314046_i128)),
    ];

    let mut identifiers: Vec<(String, Identifier)> = Vec::new();

    identifiers.push((String::from("__main__.main"), Identifier {
            pc: Some(0),
            type_: Some(String::from("function")),
            value: None,
            full_name: None,
            members: None,
            cairo_type: None,
            decorators: None,
            size: None,
            destination: None,
            references: None,
        }));

    identifiers.push((String::from("__main__.main.SIZEOF_LOCALS"), Identifier {
            pc: None,
            type_: Some(String::from("const")),
            value: None,
            full_name: None,
            members: None,
            cairo_type: None,
            decorators: None,
            size: None,
            destination: None,
            references: None,
        }));

    let program = Program::new(
        builtins,
        data,
        None,
        Vec::new(),
        reference_manager,
        identifiers.clone(),
        Vec::new(),
        None,
    );

    assert!(program.is_err());
}

#[test]
fn program_default_program() {
    let shared_program_data = SharedProgramData {
        data: Vec::new(),
        hints: Vec::new(),
        main: None,
        start: None,
        end: None,
        error_message_attributes: Vec::new(),
        instruction_locations: None,
        identifiers: Vec::new(),
        reference_manager: ReferenceManager {
            references: Vec::new(),
        },
    };
    let program = Program {
        shared_program_data: shared_program_data,
        constants: Vec::new(),
        builtins: Vec::new(),
    };

    assert_eq!(program, Program::default());
}

#[test]
fn program_of_a_compiled_class() {
    let parts = CasmParts {
        bytecode: vec![Felt252::new(5), Felt252::new(-1), Felt252::new(7)],
        hint_pcs: vec![0, 12, 345],
    };
    let program = Program::try_from_casm(parts).unwrap();
    assert_eq!(program.builtins, Vec::new());
    assert_eq!(
        program.shared_program_data.data,
        vec![
            MaybeRelocatable::Int(Felt252::new(5)),
            MaybeRelocatable::Int(Felt252::max_value()),
            MaybeRelocatable::Int(Felt252::new(7)),
        ]
    );
    assert_eq!(program.shared_program_data.main, None);
    assert_eq!(program.shared_program_data.identifiers, Vec::new());
    assert_eq!(program.constants, Vec::new());
    let hints = &program.shared_program_data.hints;
    assert_eq!(hints.len(), 3);
    for (at, (pc, code)) in [(0_usize, "0"), (12, "12"), (345, "345")].iter().enumerate() {
        assert_eq!(hints[at].0, *pc);
        assert_eq!(hints[at].1.len(), 1);
        assert_eq!(hints[at].1[0].code, *code);
        assert!(hints[at].1[0].accessible_scopes.is_empty());
        assert!(hints[at].1[0].flow_tracking_data.reference_ids.is_empty());
        assert_eq!(hints[at].1[0].flow_tracking_data.ap_tracking.group, 0);
        assert_eq!(hints[at].1[0].flow_tracking_data.ap_tracking.offset, 0);
    }
}

#[test]
fn program_constants_keep_the_order_of_the_identifiers() {
    let constant = |value: i32| Identifier {
        pc: None,
        type_: Some(String::from("const")),
        value: Some(Felt252::new(value)),
        full_name: None,
        members: None,
        cairo_type: None,
        decorators: None,
        size: None,
        destination: None,
        references: None,
    };
    let identifiers = vec![
        (String::from("b"), constant(2)),
        (String::from("a"), constant(1)),
    ];
    let program = Program::new(
        Vec::new(),
        Vec::new(),
        None,
        Vec::new(),
        ReferenceManager { references: Vec::new() },
        identifiers,
        Vec::new(),
        None,
    )
    .unwrap();
    assert_eq!(
        program.constants,
        vec![(String::from("b"), Felt252::new(2)), (String::from("a"), Felt252::new(1))]
    );
    assert_eq!(program.get_identifier("a").unwrap().value, Some(Felt252::new(1)));
    assert_eq!(program.get_identifier("c"), None);
}
