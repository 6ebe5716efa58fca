//! The text of the parts of a program that are written as strings.

use crate::felt::big::{digit_char, radix_digits};
use crate::felt::Felt252;
use crate::serde::deserialize_program::{OffsetValue, ValueAddress};
use crate::types::instruction::Register;
use crate::types::relocatable::MaybeRelocatable;
use vstd::prelude::*;
use vstd::string::{StrSliceExecFns, StringExecFns};

verus! {

/// The decimal digits of `n`.
pub open spec fn decimal(n: nat) -> Seq<char> {
    radix_digits(n, 10)
}

/// The decimal text of an integer, with a minus sign where it is negative.
pub open spec fn signed_decimal(v: int) -> Seq<char> {
    if v < 0 {
        "-"@ + decimal((-v) as nat)
    } else {
        decimal(v as nat)
    }
}

/// The decimal digits of `n`.
pub fn decimal_string(n: u64) -> (r: String)
    ensures
        r@ == decimal(n as nat),
    decreases n,
{
    proof {
        reveal_strlit("0123456789abcdefghijklmnopqrstuvwxyz");
    }
    let digits = "0123456789abcdefghijklmnopqrstuvwxyz";
    let last = (n % 10) as usize;
    let digit = digits.substring_ascii(last, last + 1);
    assert(digit@ =~= seq![digit_char(last as nat)]);
    if n < 10 {
        let r = String::from_str(digit);
        assert(r@ =~= decimal(n as nat));
        r
    } else {
        let mut r = decimal_string(n / 10);
        r.append(digit);
        assert(r@ =~= decimal(n as nat));
        r
    }
}

/// The decimal text of a signed integer.
pub fn i32_string(v: i32) -> (r: String)
    ensures
        r@ == signed_decimal(v as int),
{
    if v < 0 {
        let mut r = String::from_str("-");
        r.append(decimal_string((-(v as i64)) as u64).as_str());
        r
    } else {
        decimal_string(v as u64)
    }
}

/// The text of one offset of an address: nothing for zero, the number for a
/// positive one and the number in brackets for a negative one; a register with
/// its offset, in square brackets where the cell is read.
pub open spec fn offset_text(offset: OffsetValue) -> Seq<char> {
    match offset {
        OffsetValue::Immediate(felt) => if felt@ == 0 {
            Seq::empty()
        } else {
            radix_digits(felt@, 10)
        },
        OffsetValue::Value(value) => if value == 0 {
            Seq::empty()
        } else if value > 0 {
            signed_decimal(value as int)
        } else {
            "("@ + signed_decimal(value as int) + ")"@
        },
        OffsetValue::Reference(register, off, brackets) => {
            let name = match register {
                Register::AP => "ap"@,
                Register::FP => "fp"@,
            };
            let offset = if off == 0 {
                if brackets {
                    Seq::empty()
                } else {
                    " - "@ + signed_decimal(off as int)
                }
            } else if off > 0 {
                " + "@ + signed_decimal(off as int)
            } else {
                " + ("@ + signed_decimal(off as int) + ")"@
            };
            if brackets {
                "["@ + name + offset + "]"@
            } else {
                name + offset
            }
        },
    }
}

/// The text of one offset of an address.
pub fn offset_value_string(offset: &OffsetValue) -> (r: String)
    ensures
        r@ == offset_text(*offset),
{
    proof {
        reveal_strlit("");
    }
    match offset {
        OffsetValue::Immediate(felt) => {
            if felt.is_zero() {
                String::from_str("")
            } else {
                felt.to_string()
            }
        },
        OffsetValue::Value(value) => {
            if *value == 0 {
                String::from_str("")
            } else if *value > 0 {
                i32_string(*value)
            } else {
                let mut r = String::from_str("(");
                r.append(i32_string(*value).as_str());
                r.append(")");
                r
            }
        },
        OffsetValue::Reference(register, off, brackets) => {
            let name = match register {
                Register::AP => "ap",
                Register::FP => "fp",
            };
            let mut r = if *brackets {
                String::from_str("[")
            } else {
                String::from_str("")
            };
            r.append(name);
            if *off == 0 {
                if !*brackets {
                    r.append(" - ");
                    r.append(i32_string(*off).as_str());
                }
            } else if *off > 0 {
                r.append(" + ");
                r.append(i32_string(*off).as_str());
            } else {
                r.append(" + (");
                r.append(i32_string(*off).as_str());
                r.append(")");
            }
            if *brackets {
                r.append("]");
            }
            assert(r@ =~= offset_text(*offset));
            r
        },
    }
}

/// The text of an address with the given offsets and type: a cast of the sum
/// of the offsets to the type, which gets a star where the second offset is a
/// machine integer, in square brackets where the address is read through.
pub open spec fn address_text(
    offset1: OffsetValue,
    offset2: OffsetValue,
    dereference: bool,
    value_type: Seq<char>,
) -> Seq<char> {
    let first = offset_text(offset1);
    let second = offset_text(offset2);
    let inner = "cast("@ + first + (if second.len() != 0 {
        " + "@
    } else {
        Seq::empty()
    }) + second + ", "@ + value_type + (if offset2 is Value {
        "*"@
    } else {
        Seq::empty()
    }) + ")"@;
    if dereference {
        "["@ + inner + "]"@
    } else {
        inner
    }
}

/// The text of an address: a cast of the sum of its offsets to its type, in
/// square brackets where the address is read through.
pub open spec fn value_address_text(v: ValueAddress) -> Seq<char> {
    address_text(v.offset1, v.offset2, v.dereference, v.value_type@)
}

/// The text of an address.
pub fn serialize_value_address(v: &ValueAddress) -> (r: String)
    ensures
        r@ == value_address_text(*v),
{
    proof {
        reveal_strlit("");
    }
    let offset1 = offset_value_string(&v.offset1);
    let offset2 = offset_value_string(&v.offset2);
    let mut r = if v.dereference {
        String::from_str("[")
    } else {
        String::from_str("")
    };
    r.append("cast(");
    r.append(offset1.as_str());
    if offset2.as_str().unicode_len() != 0 {
        r.append(" + ");
    }
    r.append(offset2.as_str());
    r.append(", ");
    r.append(v.value_type.as_str());
    match v.offset2 {
        OffsetValue::Value(_) => {
            r.append("*");
        },
        _ => {},
    }
    r.append(")");
    if v.dereference {
        r.append("]");
    }
    assert(r@ =~= value_address_text(*v));
    r
}

/// The decimal text of the field element, as program files write numbers.
pub fn number_from_felt(v: &Option<Felt252>) -> (r: String)
    requires
        v is Some,
    ensures
        r@ == radix_digits(v.unwrap()@, 10),
{
    match v {
        Some(felt) => felt.to_string(),
        None => String::from_str(""),
    }
}

/// The hexadecimal text of a field element, as program files write bytecode.
pub open spec fn hex_text(value: nat) -> Seq<char> {
    "0x"@ + radix_digits(value, 16)
}

/// The hexadecimal text of each cell of the bytecode, which must hold field
/// elements only.
pub fn serialize_program_data(v: &Vec<MaybeRelocatable>) -> (r: Vec<String>)
    requires
        forall|i: int| 0 <= i < v@.len() ==> v@[i] is Int,
    ensures
        r@.len() == v@.len(),
        forall|i: int|
            0 <= i < v@.len() ==> (v@[i] matches MaybeRelocatable::Int(value) && (
            #[trigger] r@[i])@ == hex_text(value@)),
{
    let mut out: Vec<String> = Vec::new();
    let mut i: usize = 0;
    while i < v.len()
        invariant
            i <= v@.len(),
            out@.len() == i,
            forall|k: int| 0 <= k < v@.len() ==> v@[k] is Int,
            forall|k: int|
                0 <= k < i ==> (v@[k] matches MaybeRelocatable::Int(value) && (
                #[trigger] out@[k])@ == hex_text(value@)),
        decreases v@.len() - i,
    {
        match v[i] {
            MaybeRelocatable::Int(value) => {
                let mut text = String::from_str("0x");
                text.append(value.to_str_radix(16).as_str());
                out.push(text);
            },
            MaybeRelocatable::RelocatableValue(_) => {
                assert(false);
            },
        }
        i = i + 1;
    }
    out
}

} // verus!
