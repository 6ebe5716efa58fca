//! Reading the address of a reference from the text that a program file gives
//! for it.

use crate::felt::big::{parsed_residue, parsed_unsigned};
use crate::felt::{field_mul, field_pow, Felt252};
use crate::serde::deserialize_program::{OffsetValue, ValueAddress};
use crate::serde::serialize_program::{
    address_text, serialize_value_address, value_address_text,
};
use crate::types::instruction::Register;
use vstd::prelude::*;
use vstd::string::{StrSliceExecFns, StringExecFns};

verus! {

/// One summand of an address as it is written.
#[derive(Clone, Copy, Debug, PartialEq, Eq, Structural)]
pub enum Term {
    /// Nothing is written.
    Absent,
    /// A run of decimal digits, from the first position up to the second.
    Digits(usize, usize),
    /// A negative number in brackets; the positions are those of its digits.
    Negative(usize, usize),
    /// A register with its offset, in square brackets where the cell is read.
    Register(Register, i32, bool),
}

/// Whether the character is a decimal digit.
pub open spec fn is_digit(c: char) -> bool {
    48 <= c as u32 <= 57
}

/// The number that a run of decimal digits writes.
pub open spec fn digits_value(digits: Seq<char>) -> nat
    decreases digits.len(),
{
    if digits.len() == 0 {
        0
    } else {
        digits_value(digits.drop_last()) * 10 + (digits.last() as u32 - 48) as nat
    }
}

/// Whether `pattern` stands in `text` at position `pos`.
pub open spec fn stands_at(text: Seq<char>, pos: int, pattern: Seq<char>) -> bool {
    0 <= pos && pos + pattern.len() <= text.len() && text.subrange(pos, pos + pattern.len())
        == pattern
}

/// Whether `pattern` stands in `text` at position `pos`.
pub fn has_at(text: &str, n: usize, pos: usize, pattern: &str) -> (r: bool)
    requires
        n == text@.len(),
    ensures
        r == stands_at(text@, pos as int, pattern@),
{
    let m = pattern.unicode_len();
    if pos > n || m > n - pos {
        return false;
    }
    let mut i: usize = 0;
    while i < m
        invariant
            i <= m,
            m == pattern@.len(),
            n == text@.len(),
            pos + m <= n,
            forall|k: int| 0 <= k < i ==> text@[pos + k] == pattern@[k],
        decreases m - i,
    {
        if text.get_char(pos + i) != pattern.get_char(i) {
            assert(text@.subrange(pos as int, pos + m)[i as int] != pattern@[i as int]);
            return false;
        }
        i = i + 1;
    }
    assert(text@.subrange(pos as int, pos + m) =~= pattern@);
    true
}

/// The position after the run of decimal digits that starts at `pos`.
pub open spec fn digits_stop(text: Seq<char>, pos: int) -> int
    decreases text.len() - pos,
{
    if 0 <= pos < text.len() && is_digit(text[pos]) {
        digits_stop(text, pos + 1)
    } else {
        pos
    }
}

/// A run of digits from `pos` up to a character that is none, or the end of
/// the text, stops there.
pub proof fn lemma_digits_stop(text: Seq<char>, pos: int, end: int)
    requires
        0 <= pos <= end <= text.len(),
        forall|k: int| pos <= k < end ==> is_digit(text[k]),
        end < text.len() ==> !is_digit(text[end]),
    ensures
        digits_stop(text, pos) == end,
    decreases end - pos,
{
    if pos < end {
        lemma_digits_stop(text, pos + 1, end);
    }
}

/// The position after the run of decimal digits that starts at `pos`.
pub fn digits_end(text: &str, n: usize, pos: usize) -> (end: usize)
    requires
        n == text@.len(),
        pos <= n,
    ensures
        pos <= end <= n,
        forall|k: int| pos <= k < end ==> is_digit(text@[k]),
        end < n ==> !is_digit(text@[end as int]),
        end == digits_stop(text@, pos as int),
{
    let mut end = pos;
    while end < n
        invariant
            pos <= end <= n,
            n == text@.len(),
            forall|k: int| pos <= k < end ==> is_digit(text@[k]),
        decreases n - end,
    {
        let code = text.get_char(end) as u32;
        if code < 48 || code > 57 {
            proof {
                lemma_digits_stop(text@, pos as int, end as int);
            }
            return end;
        }
        end = end + 1;
    }
    proof {
        lemma_digits_stop(text@, pos as int, end as int);
    }
    end
}

/// A longer run of digits writes no smaller number.
pub proof fn lemma_digits_value_grows(digits: Seq<char>, k: int)
    requires
        0 <= k <= digits.len(),
        forall|i: int| 0 <= i < digits.len() ==> is_digit(digits[i]),
    ensures
        digits_value(digits.take(k)) <= digits_value(digits),
    decreases digits.len() - k,
{
    if k < digits.len() {
        lemma_digits_value_grows(digits, k + 1);
        assert(digits.take(k + 1).drop_last() =~= digits.take(k));
    } else {
        assert(digits.take(k) =~= digits);
    }
}

/// The number that the digits from `start` up to `end` write, where it is at
/// most `limit`.
pub fn number_upto(text: &str, n: usize, start: usize, end: usize, limit: u64) -> (r: Option<u64>)
    requires
        n == text@.len(),
        start <= end <= n,
        forall|k: int| start <= k < end ==> is_digit(text@[k]),
        limit <= 0xffff_ffff_ffff,
    ensures
        r == (if digits_value(text@.subrange(start as int, end as int)) <= limit {
            Some(digits_value(text@.subrange(start as int, end as int)) as u64)
        } else {
            None
        }),
{
    let ghost digits = text@.subrange(start as int, end as int);
    let mut acc: u64 = 0;
    let mut i: usize = start;
    while i < end
        invariant
            start <= i <= end <= n,
            n == text@.len(),
            digits == text@.subrange(start as int, end as int),
            forall|k: int| start <= k < end ==> is_digit(text@[k]),
            acc == digits_value(digits.take(i - start)),
            acc <= limit <= 0xffff_ffff_ffff,
        decreases end - i,
    {
        let code = text.get_char(i) as u32;
        let next: u64 = acc * 10 + (code - 48) as u64;
        proof {
            assert(digits.take(i + 1 - start).drop_last() =~= digits.take(i - start));
            assert(digits.take(i + 1 - start).last() == text@[i as int]);
        }
        if next > limit {
            proof {
                lemma_digits_value_grows(digits, i + 1 - start);
            }
            return None;
        }
        acc = next;
        i = i + 1;
    }
    proof {
        assert(digits.take(end - start) =~= digits);
    }
    Some(acc)
}

/// The number that the digits from `start` up to `end` write, where it is at
/// most `2^31`.
pub fn small_number(text: &str, n: usize, start: usize, end: usize) -> (r: Option<u32>)
    requires
        n == text@.len(),
        start <= end <= n,
        forall|k: int| start <= k < end ==> is_digit(text@[k]),
    ensures
        r == (if digits_value(text@.subrange(start as int, end as int)) <= 0x8000_0000 {
            Some(digits_value(text@.subrange(start as int, end as int)) as u32)
        } else {
            None
        }),
{
    match number_upto(text, n, start, end, 0x8000_0000) {
        Some(v) => Some(v as u32),
        None => None,
    }
}

/// Whether the digits that a term points to are digits of `text`.
pub open spec fn term_reads(term: Term, text: Seq<char>) -> bool {
    match term {
        Term::Digits(start, end) => start <= end <= text.len() && forall|k: int|
            start <= k < end ==> is_digit(text[k]),
        Term::Negative(start, end) => start <= end <= text.len() && forall|k: int|
            start <= k < end ==> is_digit(text[k]),
        _ => true,
    }
}

/// The number that the digits from `start` up to `end` write.
pub open spec fn number_at(text: Seq<char>, start: int, end: int) -> nat {
    digits_value(text.subrange(start, end))
}

/// The number written at `pos` after a register, with the position after it:
/// a run of digits that writes a positive number of thirty-two bits, or `(-`,
/// such a run and `)` for a negative one. Zero is not written so.
pub open spec fn signed_offset_at(text: Seq<char>, pos: int) -> Option<(i32, int)> {
    if stands_at(text, pos, "(-"@) {
        let end = digits_stop(text, pos + 2);
        let v = number_at(text, pos + 2, end);
        if end > pos + 2 && stands_at(text, end, ")"@) && 0 < v <= 0x8000_0000 {
            Some(((-v) as i32, end + 1))
        } else {
            None
        }
    } else {
        let end = digits_stop(text, pos);
        let v = number_at(text, pos, end);
        if end > pos && 0 < v < 0x8000_0000 {
            Some((v as i32, end))
        } else {
            None
        }
    }
}

/// What follows the name of a register at `pos`, with the position after it:
/// ` + ` and a number; else nothing inside square brackets, and ` - 0` without
/// them, both for the offset zero.
pub open spec fn register_offset_at(text: Seq<char>, pos: int, brackets: bool) -> Option<
    (i32, int),
> {
    if stands_at(text, pos, " + "@) {
        signed_offset_at(text, pos + 3)
    } else if brackets {
        Some((0i32, pos))
    } else if stands_at(text, pos, " - 0"@) {
        Some((0i32, pos + 4))
    } else {
        None
    }
}

/// The register term whose offset starts at `pos`, with the position after
/// it: inside square brackets the closing one must follow the offset.
pub open spec fn register_term_at(
    text: Seq<char>,
    pos: int,
    register: Register,
    brackets: bool,
) -> Option<(Term, int)> {
    match register_offset_at(text, pos, brackets) {
        Some((offset, end)) => if !brackets {
            Some((Term::Register(register, offset, false), end))
        } else if stands_at(text, end, "]"@) {
            Some((Term::Register(register, offset, true), end + 1))
        } else {
            None
        },
        None => None,
    }
}

/// The summand that starts at `pos`, with the position after it: a register,
/// in square brackets or not, with its offset; a negative number in brackets;
/// a run of digits; or nothing.
pub open spec fn term_at(text: Seq<char>, pos: int) -> Option<(Term, int)> {
    if stands_at(text, pos, "[ap"@) {
        register_term_at(text, pos + 3, Register::AP, true)
    } else if stands_at(text, pos, "[fp"@) {
        register_term_at(text, pos + 3, Register::FP, true)
    } else if stands_at(text, pos, "ap"@) {
        register_term_at(text, pos + 2, Register::AP, false)
    } else if stands_at(text, pos, "fp"@) {
        register_term_at(text, pos + 2, Register::FP, false)
    } else if stands_at(text, pos, "(-"@) {
        let end = digits_stop(text, pos + 2);
        if end > pos + 2 && stands_at(text, end, ")"@) {
            Some((Term::Negative((pos + 2) as usize, end as usize), end + 1))
        } else {
            None
        }
    } else {
        let end = digits_stop(text, pos);
        if end > pos {
            Some((Term::Digits(pos as usize, end as usize), end))
        } else {
            Some((Term::Absent, pos))
        }
    }
}

/// Reads a number as it is written after a register: plain where it is
/// positive, in brackets with a minus sign where it is negative. Returns the
/// number and the position after it.
pub fn signed_offset(text: &str, n: usize, pos: usize) -> (r: Option<(i32, usize)>)
    requires
        n == text@.len(),
        pos <= n,
    ensures
        r matches Some((_, end)) ==> pos < end <= n,
        match signed_offset_at(text@, pos as int) {
            Some((offset, end)) => pos < end <= n && r == Some((offset, end as usize)),
            None => r is None,
        },
{
    if has_at(text, n, pos, "(-") {
        proof {
            reveal_strlit("(-");
        }
        let start = pos + 2;
        let end = digits_end(text, n, start);
        if end == start || !has_at(text, n, end, ")") {
            return None;
        }
        proof {
            reveal_strlit(")");
        }
        match small_number(text, n, start, end) {
            Some(v) => {
                if v == 0 {
                    None
                } else if v == 0x8000_0000 {
                    Some((i32::MIN, end + 1))
                } else {
                    Some((-(v as i32), end + 1))
                }
            },
            None => None,
        }
    } else {
        let end = digits_end(text, n, pos);
        if end == pos {
            return None;
        }
        match small_number(text, n, pos, end) {
            Some(v) => {
                if v == 0 || v == 0x8000_0000 {
                    None
                } else {
                    Some((v as i32, end))
                }
            },
            None => None,
        }
    }
}

/// Reads what follows the name of a register: nothing, or ` + ` and a number;
/// without square brackets a zero offset is written ` - 0`. Returns the offset
/// and the position after it.
pub fn register_offset(text: &str, n: usize, pos: usize, brackets: bool) -> (r: Option<
    (i32, usize),
>)
    requires
        n == text@.len(),
        pos <= n,
    ensures
        r matches Some((_, end)) ==> pos <= end <= n,
        match register_offset_at(text@, pos as int, brackets) {
            Some((offset, end)) => pos <= end <= n && r == Some((offset, end as usize)),
            None => r is None,
        },
{
    if has_at(text, n, pos, " + ") {
        proof {
            reveal_strlit(" + ");
        }
        signed_offset(text, n, pos + 3)
    } else if brackets {
        Some((0, pos))
    } else if has_at(text, n, pos, " - 0") {
        proof {
            reveal_strlit(" - 0");
        }
        Some((0, pos + 4))
    } else {
        None
    }
}

/// Reads the register and offset that start at `pos`, the name of the register
/// being `name`. Returns the term and the position after it.
pub fn register_term(
    text: &str,
    n: usize,
    pos: usize,
    register: Register,
    brackets: bool,
) -> (r: Option<(Term, usize)>)
    requires
        n == text@.len(),
        pos <= n,
    ensures
        r matches Some((term, end)) ==> pos <= end <= n && term_reads(term, text@),
        match register_term_at(text@, pos as int, register, brackets) {
            Some((term, end)) => pos <= end <= n && r == Some((term, end as usize)),
            None => r is None,
        },
{
    match register_offset(text, n, pos, brackets) {
        Some((offset, end)) => {
            if !brackets {
                Some((Term::Register(register, offset, false), end))
            } else if has_at(text, n, end, "]") {
                proof {
                    reveal_strlit("]");
                }
                Some((Term::Register(register, offset, true), end + 1))
            } else {
                None
            }
        },
        None => None,
    }
}

/// Reads the summand that starts at `pos`: a register with its offset, a
/// number, or nothing. Returns the term and the position after it.
pub fn parse_term(text: &str, n: usize, pos: usize) -> (r: Option<(Term, usize)>)
    requires
        n == text@.len(),
        pos <= n,
    ensures
        r matches Some((term, end)) ==> pos <= end <= n && term_reads(term, text@),
        match term_at(text@, pos as int) {
            Some((term, end)) => pos <= end <= n && r == Some((term, end as usize)),
            None => r is None,
        },
{
    proof {
        reveal_strlit("[ap");
        reveal_strlit("[fp");
        reveal_strlit("ap");
        reveal_strlit("fp");
        reveal_strlit("(-");
        reveal_strlit(")");
    }
    if has_at(text, n, pos, "[ap") {
        register_term(text, n, pos + 3, Register::AP, true)
    } else if has_at(text, n, pos, "[fp") {
        register_term(text, n, pos + 3, Register::FP, true)
    } else if has_at(text, n, pos, "ap") {
        register_term(text, n, pos + 2, Register::AP, false)
    } else if has_at(text, n, pos, "fp") {
        register_term(text, n, pos + 2, Register::FP, false)
    } else if has_at(text, n, pos, "(-") {
        let start = pos + 2;
        let end = digits_end(text, n, start);
        if end > start && has_at(text, n, end, ")") {
            Some((Term::Negative(start, end), end + 1))
        } else {
            None
        }
    } else {
        let end = digits_end(text, n, pos);
        if end > pos {
            Some((Term::Digits(pos, end), end))
        } else {
            Some((Term::Absent, pos))
        }
    }
}

/// The offset that a term stands for. With `pointer` set, numbers are machine
/// integers; without, a plain number is a field element. A number that does
/// not fit in thirty-two bits, and the negative zero, stand for none.
pub open spec fn offset_at(text: Seq<char>, term: Term, pointer: bool) -> Option<OffsetValue> {
    match term {
        Term::Absent => if pointer {
            Some(OffsetValue::Value(0))
        } else {
            Some(OffsetValue::Immediate(Felt252::from_int(0)))
        },
        Term::Register(register, offset, brackets) => Some(
            OffsetValue::Reference(register, offset, brackets),
        ),
        Term::Negative(start, end) => {
            let v = number_at(text, start as int, end as int);
            if 0 < v <= 0x8000_0000 {
                Some(OffsetValue::Value((-v) as i32))
            } else {
                None
            }
        },
        Term::Digits(start, end) => if pointer {
            let v = number_at(text, start as int, end as int);
            if v < 0x8000_0000 {
                Some(OffsetValue::Value(v as i32))
            } else {
                None
            }
        } else {
            match parsed_unsigned(
                vstd::utf8::encode_utf8(text.subrange(start as int, end as int)),
                10,
            ) {
                Some(v) => Some(OffsetValue::Immediate(Felt252::from_int(v as int))),
                None => None,
            }
        },
    }
}

/// The parts of the address that `value` writes: its two offsets, whether it
/// is read through, and its type. The text is `cast(`, one or two summands
/// joined by ` + `, `, `, the type and `)`, all in square brackets where the
/// address is read through. Where the type ends in a star and the second
/// summand is no register, the star is not part of the type and numbers are
/// machine integers; else a plain number is a field element.
pub open spec fn address_parts(value: Seq<char>) -> Option<
    (OffsetValue, OffsetValue, bool, Seq<char>),
> {
    let n = value.len() as int;
    let dereference = stands_at(value, 0, "[cast("@);
    let start: int = if dereference {
        6
    } else {
        5
    };
    let close = if dereference {
        n - 2
    } else {
        n - 1
    };
    if (!dereference && !stands_at(value, 0, "cast("@)) || close < start {
        None
    } else {
        match term_at(value, start) {
            None => None,
            Some((first, after_first)) => match (if stands_at(value, after_first, " + "@) {
                term_at(value, after_first + 3)
            } else {
                Some((Term::Absent, after_first))
            }) {
                None => None,
                Some((second, after_second)) => {
                    let type_start = after_second + 2;
                    let starred = close > type_start && stands_at(value, close - 1, "*"@);
                    let pointer = starred && !(second is Register);
                    let type_end = if pointer {
                        close - 1
                    } else {
                        close
                    };
                    if !stands_at(value, after_second, ", "@) || type_start > close {
                        None
                    } else {
                        match (
                            offset_at(value, first, pointer),
                            offset_at(value, second, pointer),
                        ) {
                            (Some(offset1), Some(offset2)) => Some(
                                (
                                    offset1,
                                    offset2,
                                    dereference,
                                    value.subrange(type_start, type_end),
                                ),
                            ),
                            _ => None,
                        }
                    }
                },
            },
        }
    }
}

/// The offset that a term stands for. With `pointer` set, numbers are machine
/// integers; without, a plain number is a field element.
pub fn offset_of(text: &str, n: usize, term: Term, pointer: bool) -> (r: Option<OffsetValue>)
    requires
        n == text@.len(),
        term_reads(term, text@),
    ensures
        r == offset_at(text@, term, pointer),
{
    match term {
        Term::Absent => if pointer {
            Some(OffsetValue::Value(0))
        } else {
            let zero = Felt252::zero();
            proof {
                Felt252::lemma_is_from_int(zero, 0);
            }
            Some(OffsetValue::Immediate(zero))
        },
        Term::Register(register, offset, brackets) => Some(
            OffsetValue::Reference(register, offset, brackets),
        ),
        Term::Negative(start, end) => match small_number(text, n, start, end) {
            Some(v) => if v == 0 {
                None
            } else if v == 0x8000_0000 {
                Some(OffsetValue::Value(i32::MIN))
            } else {
                Some(OffsetValue::Value(-(v as i32)))
            },
            None => None,
        },
        Term::Digits(start, end) => if pointer {
            match small_number(text, n, start, end) {
                Some(v) => if v == 0x8000_0000 {
                    None
                } else {
                    Some(OffsetValue::Value(v as i32))
                },
                None => None,
            }
        } else {
            match Felt252::from_str_radix(text.substring_char(start, end), 10) {
                Ok(felt) => {
                    proof {
                        let v = parsed_unsigned(
                            vstd::utf8::encode_utf8(text@.subrange(start as int, end as int)),
                            10,
                        ).unwrap();
                        Felt252::lemma_is_from_int(felt, v as int);
                    }
                    Some(OffsetValue::Immediate(felt))
                },
                Err(_) => None,
            }
        },
    }
}

/// Reads an address from its text: a cast of one or two summands to a type,
/// in square brackets where the cell at the address is meant. What comes back
/// is written, by `serialize_value_address`, exactly as `value`; a text that
/// cannot be read so gives nothing.
pub fn parse_value(value: &str) -> (r: Option<ValueAddress>)
    ensures
        r matches Some(address) ==> value_address_text(address) == value@,
        match address_parts(value@) {
            Some((offset1, offset2, dereference, value_type)) => if address_text(
                offset1,
                offset2,
                dereference,
                value_type,
            ) == value@ {
                r matches Some(address) && address.offset1 == offset1 && address.offset2
                    == offset2 && address.dereference == dereference && address.value_type@
                    == value_type
            } else {
                r is None
            },
            None => r is None,
        },
{
    proof {
        reveal_strlit("[cast(");
        reveal_strlit("cast(");
        reveal_strlit(")]");
        reveal_strlit(")");
        reveal_strlit(" + ");
        reveal_strlit(", ");
        reveal_strlit("*");
    }
    let n = value.unicode_len();
    let dereference = has_at(value, n, 0, "[cast(");
    let start: usize = if dereference {
        6
    } else if has_at(value, n, 0, "cast(") {
        5
    } else {
        return None;
    };
    let closing: usize = if dereference {
        2
    } else {
        1
    };
    if n < start + closing {
        return None;
    }
    let close = n - closing;
    let (first, after_first) = match parse_term(value, n, start) {
        Some(found) => found,
        None => {
            return None;
        },
    };
    let (second, after_second) = if has_at(value, n, after_first, " + ") {
        match parse_term(value, n, after_first + 3) {
            Some(found) => found,
            None => {
                return None;
            },
        }
    } else {
        (Term::Absent, after_first)
    };
    if !has_at(value, n, after_second, ", ") {
        return None;
    }
    let type_start = after_second + 2;
    if type_start > close {
        return None;
    }
    let starred = close > type_start && has_at(value, n, close - 1, "*");
    let pointer = starred && match second {
        Term::Register(_, _, _) => false,
        _ => true,
    };
    let type_end = if pointer {
        close - 1
    } else {
        close
    };
    let offset1 = match offset_of(value, n, first, pointer) {
        Some(offset) => offset,
        None => {
            return None;
        },
    };
    let offset2 = match offset_of(value, n, second, pointer) {
        Some(offset) => offset,
        None => {
            return None;
        },
    };
    let address = ValueAddress {
        offset1,
        offset2,
        dereference,
        value_type: String::from_str(value.substring_char(type_start, type_end)),
    };
    if serialize_value_address(&address) == String::from_str(value) {
        Some(address)
    } else {
        None
    }
}

/// Whether the address is the one that stands for a text that was not read.
pub open spec fn is_unread(address: ValueAddress) -> bool {
    &&& address.offset1 == OffsetValue::Value(99)
    &&& address.offset2 == OffsetValue::Value(99)
    &&& !address.dereference
    &&& address.value_type@ == "felt"@
}

/// Reads the address of a reference from its text. A text that cannot be
/// read gives the address that no hint refers to.
pub fn deserialize_value_address(value: &str) -> (r: ValueAddress)
    ensures
        value_address_text(r) == value@ || is_unread(r),
{
    match parse_value(value) {
        Some(address) => address,
        None => ValueAddress::no_hint_reference_default(),
    }
}

/// The position of the first `e` of `text` from `from` on.
pub open spec fn first_e(text: Seq<char>, from: int) -> Option<int>
    decreases text.len() - from,
{
    if from < 0 || from >= text.len() {
        None
    } else if text[from] == 'e' {
        Some(from)
    } else {
        first_e(text, from + 1)
    }
}

/// Whether every character is a decimal digit.
pub open spec fn all_digits(text: Seq<char>) -> bool {
    forall|k: int| 0 <= k < text.len() ==> is_digit(#[trigger] text[k])
}

/// The exponent that `digits` write, which may start with a plus sign: a
/// number of thirty-two bits.
pub open spec fn exponent_value(digits: Seq<char>) -> Option<u32> {
    let bare = if digits.len() > 0 && digits[0] == '+' {
        digits.skip(1)
    } else {
        digits
    };
    if bare.len() > 0 && all_digits(bare) && digits_value(bare) <= u32::MAX {
        Some(digits_value(bare) as u32)
    } else {
        None
    }
}

/// The field element that a number in scientific notation stands for: the
/// number before the one `e` of the text, times ten to the power after it.
pub open spec fn scientific_value(text: Seq<char>) -> Option<nat> {
    match first_e(text, 0) {
        None => None,
        Some(at) => if first_e(text, at + 1) is Some {
            None
        } else {
            match (
                exponent_value(text.subrange(at + 1, text.len() as int)),
                parsed_residue(vstd::utf8::encode_utf8(text.subrange(0, at)), 10),
            ) {
                (Some(exponent), Some(base)) => Some(
                    field_mul(base, field_pow(10, exponent as nat)),
                ),
                _ => None,
            }
        },
    }
}

/// The position of the first `e` from `from` on.
pub fn find_e(text: &str, n: usize, from: usize) -> (r: Option<usize>)
    requires
        n == text@.len(),
        from <= n,
    ensures
        match r {
            Some(at) => first_e(text@, from as int) == Some(at as int) && from <= at < n,
            None => first_e(text@, from as int) is None,
        },
{
    let mut i: usize = from;
    while i < n
        invariant
            from <= i <= n,
            n == text@.len(),
            first_e(text@, from as int) == first_e(text@, i as int),
        decreases n - i,
    {
        if text.get_char(i) == 'e' {
            return Some(i);
        }
        i = i + 1;
    }
    None
}

/// Reads the exponent written from `start` to the end of the text.
pub fn read_exponent(text: &str, n: usize, start: usize) -> (r: Option<u32>)
    requires
        n == text@.len(),
        start <= n,
    ensures
        r == exponent_value(text@.subrange(start as int, n as int)),
{
    let ghost digits = text@.subrange(start as int, n as int);
    let plus = start < n && text.get_char(start) == '+';
    let from: usize = if plus {
        start + 1
    } else {
        start
    };
    let ghost bare = text@.subrange(from as int, n as int);
    proof {
        if start < n {
            assert(digits[0] == text@[start as int]);
        }
        if plus {
            assert(digits.skip(1) =~= bare);
        } else {
            assert(digits =~= bare);
        }
    }
    let end = digits_end(text, n, from);
    if end != n || from == n {
        proof {
            if end != n {
                let k = end - from;
                assert(0 <= k < bare.len());
                assert(bare[k] == text@[end as int]);
                assert(!is_digit(bare[k]));
                assert(!all_digits(bare));
            }
        }
        return None;
    }
    assert(all_digits(bare)) by {
        assert forall|k: int| 0 <= k < bare.len() implies is_digit(#[trigger] bare[k]) by {
            assert(bare[k] == text@[from + k]);
        }
    }
    match number_upto(text, n, from, n, 0xffff_ffff) {
        Some(v) => Some(v as u32),
        None => None,
    }
}

/// The field element that a number in scientific notation stands for.
pub fn deserialize_scientific_notation(text: &str) -> (r: Option<Felt252>)
    ensures
        match scientific_value(text@) {
            Some(v) => r matches Some(felt) && felt@ == v,
            None => r is None,
        },
{
    let n = text.unicode_len();
    let at = match find_e(text, n, 0) {
        Some(at) => at,
        None => {
            return None;
        },
    };
    if find_e(text, n, at + 1).is_some() {
        return None;
    }
    let exponent = match read_exponent(text, n, at + 1) {
        Some(exponent) => exponent,
        None => {
            return None;
        },
    };
    let base = match Felt252::parse_bytes(text.substring_char(0, at).as_bytes(), 10) {
        Some(base) => base,
        None => {
            return None;
        },
    };
    Some(base.mul(&Felt252::from_u128(10).pow(exponent)))
}

} // verus!
