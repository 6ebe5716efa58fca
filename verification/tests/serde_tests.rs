use cairo_vm::felt::{Felt252, PRIME_STR};
use cairo_vm::serde::deserialize_program::{
    deserialize_array_of_bigint_hex, deserialize_felt_hex,
    deserialize_map_to_string_and_usize_hashmap, keep_error_messages, parse_program,
    parse_program_json, ApTracking, Attribute, BuiltinName, DebugInfo, HexError, Identifier,
    OffsetValue, ProgramJson, Reference, ReferenceManager, ValueAddress,
};
use cairo_vm::serde::deserialize_utils::{
    deserialize_scientific_notation, deserialize_value_address, parse_value,
};
use cairo_vm::serde::serialize_program::{
    decimal_string, i32_string, number_from_felt, offset_value_string, serialize_program_data,
    serialize_value_address,
};
use cairo_vm::types::errors::program_errors::ProgramError;
use cairo_vm::types::instruction::Register;
use cairo_vm::types::program::Program;
use cairo_vm::types::relocatable::MaybeRelocatable;

#[test]
fn parse_value_with_inner_dereference_test() {
    let value = "[cast([fp + (-1)] + 2, felt*)]";

    assert_eq!(
        value,
        serialize_value_address(&ValueAddress {
                offset2: OffsetValue::Value(2),
                offset1: OffsetValue::Reference(Register::FP, -1_i32, true),
                dereference: true,
                value_type: "felt".to_string(),
            })
    );
}

#[test]
fn failing_value_in_valid_program_b() {
    let value = "cast([fp + (-4)] + 1, felt*)";

    assert_eq!(
        value,
        serialize_value_address(&ValueAddress {
                offset1: OffsetValue::Reference(Register::FP, -4, true),
                offset2: OffsetValue::Value(1),
                dereference: false,
                value_type: "felt".to_string(),
            })
    );
}

#[test]
fn parse_value_with_no_inner_dereference_test() {
    let value = "cast(ap + 2, felt*)";

    assert_eq!(
        value,
        serialize_value_address(&ValueAddress {
                offset1: OffsetValue::Reference(Register::AP, 2_i32, false),
                offset2: OffsetValue::Value(0),
                dereference: false,
                value_type: "felt".to_string(),
            })
    );
}

#[test]
fn parse_value_with_no_register_test() {
    let value = "cast(825323, felt*)";
    assert_eq!(
        value,
        serialize_value_address(&ValueAddress {
                offset1: OffsetValue::Value(825323),
                offset2: OffsetValue::Value(0),
                dereference: false,
                value_type: "felt".to_string(),
            })
    );
}

#[test]
fn parse_value_with_no_inner_deref_and_two_offsets() {
    let value = "[cast(ap - 0 + (-1), felt*)]";

    assert_eq!(
        value,
        serialize_value_address(&ValueAddress {
                offset1: OffsetValue::Reference(Register::AP, 0_i32, false),
                offset2: OffsetValue::Value(-1),
                dereference: true,
                value_type: "felt".to_string(),
            })
    );
}

#[test]
fn parse_value_with_inner_deref_and_offset2() {
    let value = "[cast([ap] + 1, __main__.felt*)]";

    assert_eq!(
        value,
        serialize_value_address(&ValueAddress {
                offset1: OffsetValue::Reference(Register::AP, 0_i32, true),
                offset2: OffsetValue::Value(1),
                dereference: true,
                value_type: "__main__.felt".to_string(),
            })
    );
}

#[test]
fn parse_value_with_inner_deref_to_pointer() {
    let value = "[cast([ap + 1] + 1, felt*)]";

    assert_eq!(
        value,
        serialize_value_address(&ValueAddress {
                offset1: OffsetValue::Reference(Register::AP, 1_i32, true),
                offset2: OffsetValue::Value(1),
                dereference: true,
                value_type: "felt".to_string(),
            })
    );
}

#[test]
fn parse_value_with_no_reference() {
    let value = "cast(825323, felt)";

    assert_eq!(
        value,
        serialize_value_address(&ValueAddress {
                offset1: OffsetValue::Immediate(Felt252::new(825323_i32)),
                offset2: OffsetValue::Immediate(Felt252::zero()),
                dereference: false,
                value_type: "felt".to_string(),
            })
    );
}

#[test]
fn parse_value_with_one_reference() {
    let value = "[cast([ap] + 1, starkware.cairo.common.cairo_secp.ec.EcPoint*)]";

    assert_eq!(
        value,
        serialize_value_address(&ValueAddress {
                offset1: OffsetValue::Reference(Register::AP, 0_i32, true),
                offset2: OffsetValue::Value(1),
                dereference: true,
                value_type: "starkware.cairo.common.cairo_secp.ec.EcPoint".to_string(),
            })
    );
}

#[test]
fn parse_value_with_doble_reference() {
    let value = "[cast([ap] + 1, starkware.cairo.common.cairo_secp.ec.EcPoint**)]";

    assert_eq!(
        value,
        serialize_value_address(&ValueAddress {
                offset1: OffsetValue::Reference(Register::AP, 0_i32, true),
                offset2: OffsetValue::Value(1),
                dereference: true,
                value_type: "starkware.cairo.common.cairo_secp.ec.EcPoint*".to_string(),
            })
    );
}

#[test]
fn test_offset_value_display() {
    assert_eq!("", offset_value_string(&OffsetValue::Immediate(Felt252::zero())));
    assert_eq!("", offset_value_string(&OffsetValue::Value(0)));
    assert_eq!("1", offset_value_string(&OffsetValue::Immediate(Felt252::one())));
    assert_eq!("(-2)", offset_value_string(&OffsetValue::Value(-2)));
    assert_eq!("2", offset_value_string(&OffsetValue::Value(2)));
    assert_eq!(
        "[ap]",
        offset_value_string(&OffsetValue::Reference(Register::AP, 0, true))
    );
    assert_eq!(
        "[ap + 2]",
        offset_value_string(&OffsetValue::Reference(Register::AP, 2, true))
    );
    assert_eq!(
        "[ap + (-2)]",
        offset_value_string(&OffsetValue::Reference(Register::AP, -2, true))
    );
    assert_eq!(
        "ap - 0",
        offset_value_string(&OffsetValue::Reference(Register::AP, 0, false))
    );
    assert_eq!(
        "ap + 1",
        offset_value_string(&OffsetValue::Reference(Register::AP, 1, false))
    );
    assert_eq!(
        "ap + (-1)",
        offset_value_string(&OffsetValue::Reference(Register::AP, -1, false))
    );

    assert_eq!(
        "[fp]",
        offset_value_string(&OffsetValue::Reference(Register::FP, 0, true))
    );
    assert_eq!(
        "[fp + 2]",
        offset_value_string(&OffsetValue::Reference(Register::FP, 2, true))
    );
    assert_eq!(
        "[fp + (-2)]",
        offset_value_string(&OffsetValue::Reference(Register::FP, -2, true))
    );
    assert_eq!(
        "fp - 0",
        offset_value_string(&OffsetValue::Reference(Register::FP, 0, false))
    );
    assert_eq!(
        "fp + 1",
        offset_value_string(&OffsetValue::Reference(Register::FP, 1, false))
    );
    assert_eq!(
        "fp + (-1)",
        offset_value_string(&OffsetValue::Reference(Register::FP, -1, false))
    );
}

#[test]
fn format_entrypoint_not_found_error() {
    let error = ProgramError::EntrypointNotFound(String::from("my_function"));
    let formatted_error = error.message();
    assert_eq!(formatted_error, "Entrypoint my_function not found");
}

fn identifier(pc: Option<usize>, type_: &str, value: Option<Felt252>) -> Identifier {
    Identifier {
        pc,
        type_: Some(String::from(type_)),
        value,
        full_name: None,
        members: None,
        cairo_type: None,
        decorators: None,
        size: None,
        destination: None,
        references: None,
    }
}

fn attribute(name: &str, value: &str) -> Attribute {
    Attribute {
        name: String::from(name),
        start_pc: 1,
        end_pc: 2,
        value: String::from(value),
        flow_tracking_data: None,
        accessible_scopes: Vec::new(),
    }
}

fn description() -> ProgramJson {
    ProgramJson {
        prime: String::from(PRIME_STR),
        builtins: vec![BuiltinName::output, BuiltinName::range_check],
        data: vec![
            MaybeRelocatable::Int(Felt252::new(5189976364521848832_u64)),
            MaybeRelocatable::Int(Felt252::new(1000)),
            MaybeRelocatable::Int(Felt252::new(2345108766317314046_u64)),
        ],
        identifiers: vec![
            (String::from("__main__.main"), identifier(Some(0), "function", None)),
            (String::from("__main__.__start__"), identifier(Some(3), "label", None)),
            (String::from("__main__.__end__"), identifier(Some(7), "label", None)),
            (
                String::from("__main__.main.SIZEOF_LOCALS"),
                identifier(None, "const", Some(Felt252::new(0))),
            ),
            (String::from("__main__.LIMIT"), identifier(None, "const", Some(Felt252::new(-1)))),
        ],
        hints: Vec::new(),
        reference_manager: ReferenceManager {
            references: vec![Reference {
                ap_tracking_data: ApTracking { group: 1, offset: 2 },
                pc: Some(0),
                value_address: ValueAddress::no_hint_reference_default(),
            }],
        },
        attributes: vec![
            attribute("error_message", "first"),
            attribute("known_ap_change", "second"),
            attribute("error_message", "third"),
        ],
        debug_info: Some(DebugInfo { instruction_locations: Vec::new() }),
        main_scope: String::from("__main__"),
        compiler_version: String::from("0.11.0"),
    }
}

#[test]
fn program_of_a_description() {
    let json = description();
    let program = parse_program_json(description(), Some("main")).unwrap();
    assert_eq!(program.builtins, json.builtins);
    assert_eq!(program.shared_program_data.data, json.data);
    assert_eq!(program.shared_program_data.main, Some(0));
    assert_eq!(program.shared_program_data.start, Some(3));
    assert_eq!(program.shared_program_data.end, Some(7));
    assert_eq!(program.shared_program_data.identifiers, json.identifiers);
    assert_eq!(program.shared_program_data.reference_manager, json.reference_manager);
    assert_eq!(
        program.shared_program_data.error_message_attributes,
        vec![attribute("error_message", "first"), attribute("error_message", "third")]
    );
    assert_eq!(program.shared_program_data.instruction_locations, Some(Vec::new()));
    assert_eq!(
        program.constants,
        vec![
            (String::from("__main__.main.SIZEOF_LOCALS"), Felt252::new(0)),
            (String::from("__main__.LIMIT"), Felt252::max_value()),
        ]
    );
}

#[test]
fn program_of_a_description_without_entrypoint() {
    let program = parse_program_json(description(), None).unwrap();
    assert_eq!(program.shared_program_data.main, None);
    assert_eq!(program.shared_program_data.start, Some(3));
}

#[test]
fn missing_entrypoint_is_refused() {
    assert_eq!(
        parse_program_json(description(), Some("missing_function")),
        Err(ProgramError::EntrypointNotFound(String::from("missing_function")))
    );
}

#[test]
fn another_prime_is_refused() {
    let mut json = description();
    json.prime = String::from("0x11");
    assert_eq!(
        parse_program_json(json, Some("main")),
        Err(ProgramError::PrimeDiffers(String::from("0x11")))
    );
}

#[test]
fn constant_without_value_is_refused() {
    let mut json = description();
    json.identifiers.push((String::from("__main__.BROKEN"), identifier(None, "const", None)));
    assert_eq!(
        parse_program_json(json, Some("main")),
        Err(ProgramError::ConstWithoutValue(String::from("__main__.BROKEN")))
    );
}

#[test]
fn description_of_a_program_and_back() {
    let program: Program = parse_program_json(description(), Some("main")).unwrap();
    let json = parse_program(program.clone());
    assert_eq!(json.prime, PRIME_STR);
    assert_eq!(json.main_scope, "");
    assert_eq!(json.compiler_version, "");
    assert_eq!(json.attributes.len(), 2);
    let again = parse_program_json(json, Some("main")).unwrap();
    assert_eq!(program, again);
}

#[test]
fn error_messages_are_kept_in_order() {
    let kept = keep_error_messages(vec![
        attribute("a", "1"),
        attribute("error_message", "2"),
        attribute("error_message", "3"),
        attribute("b", "4"),
        attribute("error_message", "5"),
    ]);
    assert_eq!(
        kept,
        vec![
            attribute("error_message", "2"),
            attribute("error_message", "3"),
            attribute("error_message", "5"),
        ]
    );
    assert_eq!(keep_error_messages(Vec::new()), Vec::new());
}

#[test]
fn program_error_messages() {
    assert_eq!(
        ProgramError::ConstWithoutValue(String::from("N")).message(),
        "Constant N has no value"
    );
    assert_eq!(
        ProgramError::PrimeDiffers(String::from("0x11")).message(),
        "Expected prime 0x800000000000011000000000000000000000000000000000000000000000001, got 0x11"
    );
}

#[test]
fn hexadecimal_field_elements() {
    assert_eq!(deserialize_felt_hex("0x0"), Ok(Felt252::new(0)));
    assert_eq!(deserialize_felt_hex("0x000A"), Ok(Felt252::new(10)));
    assert_eq!(deserialize_felt_hex("0xff"), Ok(Felt252::new(255)));
    assert_eq!(deserialize_felt_hex("0x480680017fff8000"), Ok(Felt252::new(5189976364521848832_u64)));
    assert_eq!(deserialize_felt_hex(PRIME_STR), Ok(Felt252::new(0)));
    assert_eq!(
        deserialize_felt_hex("0x800000000000011000000000000000000000000000000000000000000000002"),
        Ok(Felt252::new(1))
    );
}

#[test]
fn hexadecimal_errors() {
    assert_eq!(deserialize_felt_hex("00A"), Err(HexError::Prefix));
    assert_eq!(deserialize_felt_hex("0bx000A"), Err(HexError::Prefix));
    assert_eq!(deserialize_felt_hex(""), Err(HexError::Prefix));
    assert_eq!(deserialize_felt_hex("0"), Err(HexError::Prefix));
    assert_eq!(deserialize_felt_hex("0xlambda"), Err(HexError::Digits));
    assert_eq!(deserialize_felt_hex("0x"), Err(HexError::Digits));
}

#[test]
fn hexadecimal_bytecode() {
    let texts = vec![String::from("0x1"), String::from("0x3e8"), String::from("0x10")];
    assert_eq!(
        deserialize_array_of_bigint_hex(&texts),
        Ok(vec![
            MaybeRelocatable::Int(Felt252::new(1)),
            MaybeRelocatable::Int(Felt252::new(1000)),
            MaybeRelocatable::Int(Felt252::new(16)),
        ])
    );
    let texts = vec![String::from("0x1"), String::from("3e8")];
    assert_eq!(deserialize_array_of_bigint_hex(&texts), Err(HexError::Prefix));
    let texts = vec![String::from("0xg"), String::from("3e8")];
    assert_eq!(deserialize_array_of_bigint_hex(&texts), Err(HexError::Digits));
    assert_eq!(deserialize_array_of_bigint_hex(&Vec::new()), Ok(Vec::new()));
}

#[test]
fn bytecode_as_hexadecimal() {
    let data = vec![
        MaybeRelocatable::Int(Felt252::new(1)),
        MaybeRelocatable::Int(Felt252::new(1000)),
        MaybeRelocatable::Int(Felt252::new(-1)),
    ];
    let texts = serialize_program_data(&data);
    assert_eq!(
        texts,
        vec![
            String::from("0x1"),
            String::from("0x3e8"),
            String::from("0x800000000000011000000000000000000000000000000000000000000000000"),
        ]
    );
    assert_eq!(deserialize_array_of_bigint_hex(&texts), Ok(data));
}

#[test]
fn later_entries_replace_earlier_ones() {
    let entries = vec![
        (String::from("a"), 1_usize),
        (String::from("b"), 2),
        (String::from("a"), 3),
        (String::from("c"), 4),
        (String::from("b"), 5),
    ];
    let mut map = deserialize_map_to_string_and_usize_hashmap(entries);
    map.sort();
    assert_eq!(
        map,
        vec![(String::from("a"), 3_usize), (String::from("b"), 5), (String::from("c"), 4)]
    );
    assert_eq!(deserialize_map_to_string_and_usize_hashmap(Vec::new()), Vec::new());
}

#[test]
fn decimal_texts() {
    assert_eq!(decimal_string(0), "0");
    assert_eq!(decimal_string(7), "7");
    assert_eq!(decimal_string(1234567890), "1234567890");
    assert_eq!(decimal_string(u64::MAX), "18446744073709551615");
    assert_eq!(i32_string(-1), "-1");
    assert_eq!(i32_string(i32::MIN), "-2147483648");
    assert_eq!(i32_string(i32::MAX), "2147483647");
    assert_eq!(number_from_felt(&Some(Felt252::new(300))), "300");
    assert_eq!(
        number_from_felt(&Some(Felt252::new(-1))),
        "3618502788666131213697322783095070105623107215331596699973092056135872020480"
    );
}

#[test]
fn default_address_of_an_unread_reference() {
    let address = ValueAddress::no_hint_reference_default();
    assert_eq!(address.offset1, OffsetValue::Value(99));
    assert_eq!(address.offset2, OffsetValue::Value(99));
    assert!(!address.dereference);
    assert_eq!(address.value_type, "felt");
    assert_eq!(serialize_value_address(&address), "cast(99 + 99, felt*)");
}

fn address(offset1: OffsetValue, offset2: OffsetValue, dereference: bool, value_type: &str) -> ValueAddress {
    ValueAddress { offset1, offset2, dereference, value_type: String::from(value_type) }
}

#[test]
fn addresses_are_read_as_they_are_written() {
    let cases = vec![
        (
            "[cast([fp + (-1)] + 2, felt*)]",
            address(OffsetValue::Reference(Register::FP, -1, true), OffsetValue::Value(2), true, "felt"),
        ),
        (
            "cast([fp + (-4)] + 1, felt*)",
            address(OffsetValue::Reference(Register::FP, -4, true), OffsetValue::Value(1), false, "felt"),
        ),
        (
            "cast(ap + 2, felt*)",
            address(OffsetValue::Reference(Register::AP, 2, false), OffsetValue::Value(0), false, "felt"),
        ),
        ("cast(825323, felt*)", address(OffsetValue::Value(825323), OffsetValue::Value(0), false, "felt")),
        (
            "[cast(ap - 0 + (-1), felt*)]",
            address(OffsetValue::Reference(Register::AP, 0, false), OffsetValue::Value(-1), true, "felt"),
        ),
        (
            "[cast([ap] + 1, __main__.felt*)]",
            address(OffsetValue::Reference(Register::AP, 0, true), OffsetValue::Value(1), true, "__main__.felt"),
        ),
        (
            "[cast([ap + 1] + 1, felt*)]",
            address(OffsetValue::Reference(Register::AP, 1, true), OffsetValue::Value(1), true, "felt"),
        ),
        (
            "cast(825323, felt)",
            address(
                OffsetValue::Immediate(Felt252::new(825323)),
                OffsetValue::Immediate(Felt252::new(0)),
                false,
                "felt",
            ),
        ),
        (
            "[cast([ap] + 1, starkware.cairo.common.cairo_secp.ec.EcPoint*)]",
            address(
                OffsetValue::Reference(Register::AP, 0, true),
                OffsetValue::Value(1),
                true,
                "starkware.cairo.common.cairo_secp.ec.EcPoint",
            ),
        ),
        (
            "[cast([ap] + 1, starkware.cairo.common.cairo_secp.ec.EcPoint**)]",
            address(
                OffsetValue::Reference(Register::AP, 0, true),
                OffsetValue::Value(1),
                true,
                "starkware.cairo.common.cairo_secp.ec.EcPoint*",
            ),
        ),
        (
            "[cast(fp + (-3), felt*)]",
            address(OffsetValue::Reference(Register::FP, -3, false), OffsetValue::Value(0), true, "felt"),
        ),
        (
            "cast([ap + (-1)] + [ap + (-2)], felt)",
            address(
                OffsetValue::Reference(Register::AP, -1, true),
                OffsetValue::Reference(Register::AP, -2, true),
                false,
                "felt",
            ),
        ),
        (
            "cast(fp + (-2147483648), felt*)",
            address(OffsetValue::Reference(Register::FP, i32::MIN, false), OffsetValue::Value(0), false, "felt"),
        ),
        (
            "cast(3618502788666131213697322783095070105623107215331596699973092056135872020480, felt)",
            address(
                OffsetValue::Immediate(Felt252::max_value()),
                OffsetValue::Immediate(Felt252::new(0)),
                false,
                "felt",
            ),
        ),
    ];
    for (text, expected) in cases {
        assert_eq!(serialize_value_address(&expected), text);
        assert_eq!(parse_value(text), Some(expected.clone()), "{}", text);
        assert_eq!(deserialize_value_address(text), expected, "{}", text);
    }
}

#[test]
fn unreadable_addresses_give_the_default() {
    for text in [
        "",
        "cast",
        "cast(",
        "[cast(ap + 2, felt*)",
        "cast(ap + 2, felt*)]",
        "cast(ap + 2 felt*)",
        "cast(ap + 02, felt*)",
        "cast(ap + 2147483648, felt*)",
        "cast(bp + 2, felt*)",
        "cast(ap +  2, felt*)",
        "cast(ap, felt*)",
        "cast(ap + 0, felt*)",
        "cast([ap + 0], felt*)",
        "cast(0, felt*)",
        "cast((-0), felt*)",
        "cast(5 + (-3), felt)",
    ] {
        assert_eq!(parse_value(text), None, "{}", text);
        assert_eq!(deserialize_value_address(text), ValueAddress::no_hint_reference_default(), "{}", text);
    }
}

#[test]
fn numbers_in_scientific_notation() {
    assert_eq!(
        deserialize_scientific_notation("1e27"),
        Some(Felt252::new(1) * Felt252::new(10).pow(27))
    );
    assert_eq!(deserialize_scientific_notation("64e+2"), Some(Felt252::new(6400)));
    assert_eq!(deserialize_scientific_notation("-2e3"), Some(Felt252::new(-2000)));
    assert_eq!(deserialize_scientific_notation("7e0"), Some(Felt252::new(7)));
    let nines = String::from_utf8(vec![b'9'; 1000]).unwrap();
    let text = format!("{}e{}", nines, u32::MAX);
    assert_eq!(
        deserialize_scientific_notation(&text),
        Some(
            Felt252::from_str_radix(
                "2471602022505793130446032259107029522557827898253184929958153020344968292412",
                10
            )
            .unwrap()
        )
    );
}

#[test]
fn numbers_that_are_not_in_scientific_notation() {
    for text in ["", "e", "12", "1e", "e5", "1e2e3", "1e-2", "1.5e3", "1e4294967296", "1e 2", "1E2", "1e++2"] {
        assert_eq!(deserialize_scientific_notation(text), None, "{}", text);
    }
}
