//! Addresses and cell values as text.

use crate::felt::big::radix_digits;
use crate::serde::serialize_program::{decimal, decimal_string, signed_decimal};
use crate::types::relocatable::{MaybeRelocatable, Relocatable};
use vstd::prelude::*;
use vstd::string::StringExecFns;

verus! {

/// The decimal text of a signed integer.
pub fn i64_string(v: i64) -> (r: String)
    ensures
        r@ == signed_decimal(v as int),
{
    if v < 0 {
        let mut r = String::from_str("-");
        r.append(decimal_string((-(v as i128)) as u64).as_str());
        r
    } else {
        decimal_string(v as u64)
    }
}

impl Relocatable {
    /// The text of an address: segment, colon, offset.
    pub open spec fn text(self) -> Seq<char> {
        signed_decimal(self.segment_index as int) + ":"@ + decimal(self.offset as nat)
    }

    /// The text of the address: segment, colon, offset.
    pub fn to_text(&self) -> (r: String)
        ensures
            r@ == self.text(),
    {
        let mut r = i64_string(self.segment_index as i64);
        r.append(":");
        r.append(decimal_string(self.offset as u64).as_str());
        r
    }
}

impl MaybeRelocatable {
    /// The text of a cell value: that of the address, or the number in decimal.
    pub open spec fn text(self) -> Seq<char> {
        match self {
            MaybeRelocatable::RelocatableValue(rel) => rel.text(),
            MaybeRelocatable::Int(num) => radix_digits(num@, 10),
        }
    }

    /// The text of the cell value: that of the address, or the number in
    /// decimal.
    pub fn to_text(&self) -> (r: String)
        ensures
            r@ == self.text(),
    {
        match self {
            MaybeRelocatable::RelocatableValue(rel) => rel.to_text(),
            MaybeRelocatable::Int(num) => num.to_string(),
        }
    }
}

} // verus!
