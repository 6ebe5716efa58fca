//! References: how a name of a hint is bound to a place in memory.

use crate::serde::deserialize_program::{ApTracking, OffsetValue, Reference};
use crate::types::instruction::Register;
use vstd::prelude::*;
use vstd::std_specs::convert::FromSpecImpl;

verus! {

/// How the value of a name is found from the registers and memory.
#[derive(Debug, PartialEq, Eq, Clone)]
pub struct HintReference {
    pub offset1: OffsetValue,
    pub offset2: OffsetValue,
    pub dereference: bool,
    pub ap_tracking_data: Option<ApTracking>,
    pub cairo_type: Option<String>,
}

impl HintReference {
    /// The reference to the cell `offset1` cells from the frame pointer.
    pub fn new_simple(offset1: i32) -> (r: HintReference)
        ensures
            r.offset1 == OffsetValue::Reference(Register::FP, offset1, false),
            r.offset2 == OffsetValue::Value(0),
            r.dereference,
            r.ap_tracking_data.is_none(),
            r.cairo_type.is_none(),
    {
        HintReference {
            offset1: OffsetValue::Reference(Register::FP, offset1, false),
            offset2: OffsetValue::Value(0),
            dereference: true,
            ap_tracking_data: None,
            cairo_type: None,
        }
    }

    /// The reference with the two given offsets from the frame pointer, the
    /// first of them read through where `inner_dereference` is set.
    pub fn new(offset1: i32, offset2: i32, inner_dereference: bool, dereference: bool) -> (r:
        HintReference)
        ensures
            r.offset1 == OffsetValue::Reference(Register::FP, offset1, inner_dereference),
            r.offset2 == OffsetValue::Value(offset2),
            r.dereference == dereference,
            r.ap_tracking_data.is_none(),
            r.cairo_type.is_none(),
    {
        HintReference {
            offset1: OffsetValue::Reference(Register::FP, offset1, inner_dereference),
            offset2: OffsetValue::Value(offset2),
            dereference,
            ap_tracking_data: None,
            cairo_type: None,
        }
    }
}

/// Whether the offset is taken from the allocation pointer.
pub open spec fn refers_to_ap(offset: OffsetValue) -> bool {
    offset matches OffsetValue::Reference(Register::AP, _, _)
}

/// The reference of a program as the hints use it. The tracking data is kept
/// only where an offset is taken from the allocation pointer.
pub open spec fn hint_reference_of(reference: Reference) -> HintReference {
    HintReference {
        offset1: reference.value_address.offset1,
        offset2: reference.value_address.offset2,
        dereference: reference.value_address.dereference,
        ap_tracking_data: if refers_to_ap(reference.value_address.offset1) || refers_to_ap(
            reference.value_address.offset2,
        ) {
            Some(reference.ap_tracking_data)
        } else {
            None
        },
        cairo_type: Some(reference.value_address.value_type),
    }
}

/// Whether the offset is taken from the allocation pointer.
pub fn is_ap_offset(offset: &OffsetValue) -> (r: bool)
    ensures
        r == refers_to_ap(*offset),
{
    match offset {
        OffsetValue::Reference(Register::AP, _, _) => true,
        _ => false,
    }
}

impl HintReference {
    /// The reference of a program as the hints use it: see the conversion from
    /// `Reference`.
    pub fn from_reference(reference: &Reference) -> (r: HintReference)
        ensures
            r == hint_reference_of(*reference),
    {
        let from_ap = is_ap_offset(&reference.value_address.offset1) || is_ap_offset(
            &reference.value_address.offset2,
        );
        HintReference {
            offset1: reference.value_address.offset1,
            offset2: reference.value_address.offset2,
            dereference: reference.value_address.dereference,
            ap_tracking_data: if from_ap {
                Some(reference.ap_tracking_data)
            } else {
                None
            },
            cairo_type: Some(reference.value_address.value_type.clone()),
        }
    }
}

impl From<Reference> for HintReference {
    /// The reference of a program as the hints use it. The tracking data is
    /// kept only where an offset is taken from the allocation pointer.
    fn from(reference: Reference) -> (r: HintReference) {
        let from_ap = is_ap_offset(&reference.value_address.offset1) || is_ap_offset(
            &reference.value_address.offset2,
        );
        HintReference {
            offset1: reference.value_address.offset1,
            offset2: reference.value_address.offset2,
            dereference: reference.value_address.dereference,
            ap_tracking_data: if from_ap {
                Some(reference.ap_tracking_data)
            } else {
                None
            },
            cairo_type: Some(reference.value_address.value_type),
        }
    }
}

impl FromSpecImpl<Reference> for HintReference {
    open spec fn obeys_from_spec() -> bool {
        true
    }

    open spec fn from_spec(reference: Reference) -> HintReference {
        hint_reference_of(reference)
    }
}

} // verus!
