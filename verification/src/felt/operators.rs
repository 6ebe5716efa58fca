//! The operators `+ - * / % << >> & | ^` and unary `-` on field elements, for
//! elements and for references to them.

use super::big::field_div;
use super::ops::{bitand_value, bitor_value, bitxor_value};
use super::{prime, Felt252};
use vstd::arithmetic::power::pow;
use vstd::prelude::*;
use vstd::std_specs::ops::{
    AddSpecImpl, BitAndSpecImpl, BitOrSpecImpl, BitXorSpecImpl, DivSpecImpl, MulSpecImpl,
    NegSpecImpl, RemSpecImpl, ShlSpecImpl, ShrSpecImpl, SubSpecImpl,
};

verus! {

impl core::ops::Add for Felt252 {
    type Output = Felt252;

    fn add(self, rhs: Felt252) -> (r: Felt252) {
        let r = Felt252::add(&self, &rhs);
        proof {
            Felt252::lemma_is_from_int(r, (self@ + rhs@) as int);
        }
        r
    }
}

impl AddSpecImpl for Felt252 {
    open spec fn obeys_add_spec() -> bool {
        true
    }

    open spec fn add_req(self, rhs: Felt252) -> bool {
        true
    }

    open spec fn add_spec(self, rhs: Felt252) -> Felt252 {
        Felt252::from_int((self@ + rhs@) as int)
    }
}

impl<'a> core::ops::Add for &'a Felt252 {
    type Output = Felt252;

    fn add(self, rhs: &'a Felt252) -> (r: Felt252) {
        let r = Felt252::add(self, rhs);
        proof {
            Felt252::lemma_is_from_int(r, (self@ + rhs@) as int);
        }
        r
    }
}

impl<'a> AddSpecImpl for &'a Felt252 {
    open spec fn obeys_add_spec() -> bool {
        true
    }

    open spec fn add_req(self, rhs: &'a Felt252) -> bool {
        true
    }

    open spec fn add_spec(self, rhs: &'a Felt252) -> Felt252 {
        Felt252::from_int((self@ + rhs@) as int)
    }
}

impl<'a> core::ops::Add<&'a Felt252> for Felt252 {
    type Output = Felt252;

    fn add(self, rhs: &'a Felt252) -> (r: Felt252) {
        let r = Felt252::add(&self, rhs);
        proof {
            Felt252::lemma_is_from_int(r, (self@ + rhs@) as int);
        }
        r
    }
}

impl<'a> AddSpecImpl<&'a Felt252> for Felt252 {
    open spec fn obeys_add_spec() -> bool {
        true
    }

    open spec fn add_req(self, rhs: &'a Felt252) -> bool {
        true
    }

    open spec fn add_spec(self, rhs: &'a Felt252) -> Felt252 {
        Felt252::from_int((self@ + rhs@) as int)
    }
}

impl core::ops::Sub for Felt252 {
    type Output = Felt252;

    fn sub(self, rhs: Felt252) -> (r: Felt252) {
        let r = Felt252::sub(&self, &rhs);
        proof {
            Felt252::lemma_is_from_int(r, self@ as int - rhs@ as int);
        }
        r
    }
}

impl SubSpecImpl for Felt252 {
    open spec fn obeys_sub_spec() -> bool {
        true
    }

    open spec fn sub_req(self, rhs: Felt252) -> bool {
        true
    }

    open spec fn sub_spec(self, rhs: Felt252) -> Felt252 {
        Felt252::from_int(self@ as int - rhs@ as int)
    }
}

impl<'a> core::ops::Sub for &'a Felt252 {
    type Output = Felt252;

    fn sub(self, rhs: &'a Felt252) -> (r: Felt252) {
        let r = Felt252::sub(self, rhs);
        proof {
            Felt252::lemma_is_from_int(r, self@ as int - rhs@ as int);
        }
        r
    }
}

impl<'a> SubSpecImpl for &'a Felt252 {
    open spec fn obeys_sub_spec() -> bool {
        true
    }

    open spec fn sub_req(self, rhs: &'a Felt252) -> bool {
        true
    }

    open spec fn sub_spec(self, rhs: &'a Felt252) -> Felt252 {
        Felt252::from_int(self@ as int - rhs@ as int)
    }
}

impl<'a> core::ops::Sub<&'a Felt252> for Felt252 {
    type Output = Felt252;

    fn sub(self, rhs: &'a Felt252) -> (r: Felt252) {
        let r = Felt252::sub(&self, rhs);
        proof {
            Felt252::lemma_is_from_int(r, self@ as int - rhs@ as int);
        }
        r
    }
}

impl<'a> SubSpecImpl<&'a Felt252> for Felt252 {
    open spec fn obeys_sub_spec() -> bool {
        true
    }

    open spec fn sub_req(self, rhs: &'a Felt252) -> bool {
        true
    }

    open spec fn sub_spec(self, rhs: &'a Felt252) -> Felt252 {
        Felt252::from_int(self@ as int - rhs@ as int)
    }
}

impl core::ops::Mul for Felt252 {
    type Output = Felt252;

    fn mul(self, rhs: Felt252) -> (r: Felt252) {
        let r = Felt252::mul(&self, &rhs);
        proof {
            Felt252::lemma_is_from_int(r, (self@ * rhs@) as int);
        }
        r
    }
}

impl MulSpecImpl for Felt252 {
    open spec fn obeys_mul_spec() -> bool {
        true
    }

    open spec fn mul_req(self, rhs: Felt252) -> bool {
        true
    }

    open spec fn mul_spec(self, rhs: Felt252) -> Felt252 {
        Felt252::from_int((self@ * rhs@) as int)
    }
}

impl<'a> core::ops::Mul for &'a Felt252 {
    type Output = Felt252;

    fn mul(self, rhs: &'a Felt252) -> (r: Felt252) {
        let r = Felt252::mul(self, rhs);
        proof {
            Felt252::lemma_is_from_int(r, (self@ * rhs@) as int);
        }
        r
    }
}

impl<'a> MulSpecImpl for &'a Felt252 {
    open spec fn obeys_mul_spec() -> bool {
        true
    }

    open spec fn mul_req(self, rhs: &'a Felt252) -> bool {
        true
    }

    open spec fn mul_spec(self, rhs: &'a Felt252) -> Felt252 {
        Felt252::from_int((self@ * rhs@) as int)
    }
}

impl<'a> core::ops::Mul<&'a Felt252> for Felt252 {
    type Output = Felt252;

    fn mul(self, rhs: &'a Felt252) -> (r: Felt252) {
        let r = Felt252::mul(&self, rhs);
        proof {
            Felt252::lemma_is_from_int(r, (self@ * rhs@) as int);
        }
        r
    }
}

impl<'a> MulSpecImpl<&'a Felt252> for Felt252 {
    open spec fn obeys_mul_spec() -> bool {
        true
    }

    open spec fn mul_req(self, rhs: &'a Felt252) -> bool {
        true
    }

    open spec fn mul_spec(self, rhs: &'a Felt252) -> Felt252 {
        Felt252::from_int((self@ * rhs@) as int)
    }
}

impl core::ops::BitAnd for Felt252 {
    type Output = Felt252;

    fn bitand(self, rhs: Felt252) -> (r: Felt252) {
        let r = Felt252::bitand(&self, &rhs);
        proof {
            vstd::arithmetic::div_mod::lemma_small_mod(r@, prime());
            Felt252::lemma_is_from_int(r, bitand_value(self, rhs) as int);
        }
        r
    }
}

impl BitAndSpecImpl for Felt252 {
    open spec fn obeys_bitand_spec() -> bool {
        true
    }

    open spec fn bitand_req(self, rhs: Felt252) -> bool {
        true
    }

    open spec fn bitand_spec(self, rhs: Felt252) -> Felt252 {
        Felt252::from_int(bitand_value(self, rhs) as int)
    }
}

impl<'a> core::ops::BitAnd for &'a Felt252 {
    type Output = Felt252;

    fn bitand(self, rhs: &'a Felt252) -> (r: Felt252) {
        let r = Felt252::bitand(self, rhs);
        proof {
            vstd::arithmetic::div_mod::lemma_small_mod(r@, prime());
            Felt252::lemma_is_from_int(r, bitand_value(*self, *rhs) as int);
        }
        r
    }
}

impl<'a> BitAndSpecImpl for &'a Felt252 {
    open spec fn obeys_bitand_spec() -> bool {
        true
    }

    open spec fn bitand_req(self, rhs: &'a Felt252) -> bool {
        true
    }

    open spec fn bitand_spec(self, rhs: &'a Felt252) -> Felt252 {
        Felt252::from_int(bitand_value(*self, *rhs) as int)
    }
}

impl<'a> core::ops::BitAnd<&'a Felt252> for Felt252 {
    type Output = Felt252;

    fn bitand(self, rhs: &'a Felt252) -> (r: Felt252) {
        let r = Felt252::bitand(&self, rhs);
        proof {
            vstd::arithmetic::div_mod::lemma_small_mod(r@, prime());
            Felt252::lemma_is_from_int(r, bitand_value(self, *rhs) as int);
        }
        r
    }
}

impl<'a> BitAndSpecImpl<&'a Felt252> for Felt252 {
    open spec fn obeys_bitand_spec() -> bool {
        true
    }

    open spec fn bitand_req(self, rhs: &'a Felt252) -> bool {
        true
    }

    open spec fn bitand_spec(self, rhs: &'a Felt252) -> Felt252 {
        Felt252::from_int(bitand_value(self, *rhs) as int)
    }
}

impl core::ops::BitOr for Felt252 {
    type Output = Felt252;

    fn bitor(self, rhs: Felt252) -> (r: Felt252) {
        let r = Felt252::bitor(&self, &rhs);
        proof {
            Felt252::lemma_is_from_int(r, bitor_value(self, rhs) as int);
        }
        r
    }
}

impl BitOrSpecImpl for Felt252 {
    open spec fn obeys_bitor_spec() -> bool {
        true
    }

    open spec fn bitor_req(self, rhs: Felt252) -> bool {
        true
    }

    open spec fn bitor_spec(self, rhs: Felt252) -> Felt252 {
        Felt252::from_int(bitor_value(self, rhs) as int)
    }
}

impl<'a> core::ops::BitOr for &'a Felt252 {
    type Output = Felt252;

    fn bitor(self, rhs: &'a Felt252) -> (r: Felt252) {
        let r = Felt252::bitor(self, rhs);
        proof {
            Felt252::lemma_is_from_int(r, bitor_value(*self, *rhs) as int);
        }
        r
    }
}

impl<'a> BitOrSpecImpl for &'a Felt252 {
    open spec fn obeys_bitor_spec() -> bool {
        true
    }

    open spec fn bitor_req(self, rhs: &'a Felt252) -> bool {
        true
    }

    open spec fn bitor_spec(self, rhs: &'a Felt252) -> Felt252 {
        Felt252::from_int(bitor_value(*self, *rhs) as int)
    }
}

impl<'a> core::ops::BitOr<&'a Felt252> for Felt252 {
    type Output = Felt252;

    fn bitor(self, rhs: &'a Felt252) -> (r: Felt252) {
        let r = Felt252::bitor(&self, rhs);
        proof {
            Felt252::lemma_is_from_int(r, bitor_value(self, *rhs) as int);
        }
        r
    }
}

impl<'a> BitOrSpecImpl<&'a Felt252> for Felt252 {
    open spec fn obeys_bitor_spec() -> bool {
        true
    }

    open spec fn bitor_req(self, rhs: &'a Felt252) -> bool {
        true
    }

    open spec fn bitor_spec(self, rhs: &'a Felt252) -> Felt252 {
        Felt252::from_int(bitor_value(self, *rhs) as int)
    }
}

impl core::ops::BitXor for Felt252 {
    type Output = Felt252;

    fn bitxor(self, rhs: Felt252) -> (r: Felt252) {
        let r = Felt252::bitxor(&self, &rhs);
        proof {
            Felt252::lemma_is_from_int(r, bitxor_value(self, rhs) as int);
        }
        r
    }
}

impl BitXorSpecImpl for Felt252 {
    open spec fn obeys_bitxor_spec() -> bool {
        true
    }

    open spec fn bitxor_req(self, rhs: Felt252) -> bool {
        true
    }

    open spec fn bitxor_spec(self, rhs: Felt252) -> Felt252 {
        Felt252::from_int(bitxor_value(self, rhs) as int)
    }
}

impl<'a> core::ops::BitXor for &'a Felt252 {
    type Output = Felt252;

    fn bitxor(self, rhs: &'a Felt252) -> (r: Felt252) {
        let r = Felt252::bitxor(self, rhs);
        proof {
            Felt252::lemma_is_from_int(r, bitxor_value(*self, *rhs) as int);
        }
        r
    }
}

impl<'a> BitXorSpecImpl for &'a Felt252 {
    open spec fn obeys_bitxor_spec() -> bool {
        true
    }

    open spec fn bitxor_req(self, rhs: &'a Felt252) -> bool {
        true
    }

    open spec fn bitxor_spec(self, rhs: &'a Felt252) -> Felt252 {
        Felt252::from_int(bitxor_value(*self, *rhs) as int)
    }
}

impl<'a> core::ops::BitXor<&'a Felt252> for Felt252 {
    type Output = Felt252;

    fn bitxor(self, rhs: &'a Felt252) -> (r: Felt252) {
        let r = Felt252::bitxor(&self, rhs);
        proof {
            Felt252::lemma_is_from_int(r, bitxor_value(self, *rhs) as int);
        }
        r
    }
}

impl<'a> BitXorSpecImpl<&'a Felt252> for Felt252 {
    open spec fn obeys_bitxor_spec() -> bool {
        true
    }

    open spec fn bitxor_req(self, rhs: &'a Felt252) -> bool {
        true
    }

    open spec fn bitxor_spec(self, rhs: &'a Felt252) -> Felt252 {
        Felt252::from_int(bitxor_value(self, *rhs) as int)
    }
}

impl core::ops::Div for Felt252 {
    type Output = Felt252;

    fn div(self, rhs: Felt252) -> (r: Felt252) {
        match Felt252::div(&self, &rhs) {
            Ok(q) => {
                proof {
                    vstd::arithmetic::div_mod::lemma_small_mod(q@, prime());
                    Felt252::lemma_is_from_int(q, q@ as int);
                }
                q
            },
            Err(_) => vstd::pervasive::unreached(),
        }
    }
}

impl DivSpecImpl for Felt252 {
    open spec fn obeys_div_spec() -> bool {
        true
    }

    open spec fn div_req(self, rhs: Felt252) -> bool {
        rhs@ != 0
    }

    open spec fn div_spec(self, rhs: Felt252) -> Felt252 {
        Felt252::from_int(field_div(self@, rhs@) as int)
    }
}

impl<'a> core::ops::Div for &'a Felt252 {
    type Output = Felt252;

    fn div(self, rhs: &'a Felt252) -> (r: Felt252) {
        match Felt252::div(self, rhs) {
            Ok(q) => {
                proof {
                    vstd::arithmetic::div_mod::lemma_small_mod(q@, prime());
                    Felt252::lemma_is_from_int(q, q@ as int);
                }
                q
            },
            Err(_) => vstd::pervasive::unreached(),
        }
    }
}

impl<'a> DivSpecImpl for &'a Felt252 {
    open spec fn obeys_div_spec() -> bool {
        true
    }

    open spec fn div_req(self, rhs: &'a Felt252) -> bool {
        rhs@ != 0
    }

    open spec fn div_spec(self, rhs: &'a Felt252) -> Felt252 {
        Felt252::from_int(field_div(self@, rhs@) as int)
    }
}

impl<'a> core::ops::Div<&'a Felt252> for Felt252 {
    type Output = Felt252;

    fn div(self, rhs: &'a Felt252) -> (r: Felt252) {
        match Felt252::div(&self, rhs) {
            Ok(q) => {
                proof {
                    vstd::arithmetic::div_mod::lemma_small_mod(q@, prime());
                    Felt252::lemma_is_from_int(q, q@ as int);
                }
                q
            },
            Err(_) => vstd::pervasive::unreached(),
        }
    }
}

impl<'a> DivSpecImpl<&'a Felt252> for Felt252 {
    open spec fn obeys_div_spec() -> bool {
        true
    }

    open spec fn div_req(self, rhs: &'a Felt252) -> bool {
        rhs@ != 0
    }

    open spec fn div_spec(self, rhs: &'a Felt252) -> Felt252 {
        Felt252::from_int(field_div(self@, rhs@) as int)
    }
}

impl core::ops::Rem for Felt252 {
    type Output = Felt252;

    fn rem(self, rhs: Felt252) -> (r: Felt252) {
        let r = Felt252::rem(&self, &rhs);
        proof {
            vstd::arithmetic::div_mod::lemma_small_mod(0, prime());
            Felt252::lemma_is_from_int(r, 0);
        }
        r
    }
}

impl RemSpecImpl for Felt252 {
    open spec fn obeys_rem_spec() -> bool {
        true
    }

    open spec fn rem_req(self, rhs: Felt252) -> bool {
        true
    }

    open spec fn rem_spec(self, rhs: Felt252) -> Felt252 {
        Felt252::from_int(0int)
    }
}

impl<'a> core::ops::Rem<&'a Felt252> for Felt252 {
    type Output = Felt252;

    fn rem(self, rhs: &'a Felt252) -> (r: Felt252) {
        let r = Felt252::rem(&self, rhs);
        proof {
            vstd::arithmetic::div_mod::lemma_small_mod(0, prime());
            Felt252::lemma_is_from_int(r, 0);
        }
        r
    }
}

impl<'a> RemSpecImpl<&'a Felt252> for Felt252 {
    open spec fn obeys_rem_spec() -> bool {
        true
    }

    open spec fn rem_req(self, rhs: &'a Felt252) -> bool {
        true
    }

    open spec fn rem_spec(self, rhs: &'a Felt252) -> Felt252 {
        Felt252::from_int(0int)
    }
}

impl core::ops::Shl<u32> for Felt252 {
    type Output = Felt252;

    fn shl(self, rhs: u32) -> (r: Felt252) {
        let r = Felt252::shl(&self, rhs as usize);
        proof {
            Felt252::lemma_is_from_int(r, self@ * pow(2, rhs as nat));
        }
        r
    }
}

impl ShlSpecImpl<u32> for Felt252 {
    open spec fn obeys_shl_spec() -> bool {
        true
    }

    open spec fn shl_req(self, rhs: u32) -> bool {
        true
    }

    open spec fn shl_spec(self, rhs: u32) -> Felt252 {
        Felt252::from_int(self@ * pow(2, rhs as nat))
    }
}

impl core::ops::Shl<usize> for Felt252 {
    type Output = Felt252;

    fn shl(self, rhs: usize) -> (r: Felt252) {
        let r = Felt252::shl(&self, rhs as usize);
        proof {
            Felt252::lemma_is_from_int(r, self@ * pow(2, rhs as nat));
        }
        r
    }
}

impl ShlSpecImpl<usize> for Felt252 {
    open spec fn obeys_shl_spec() -> bool {
        true
    }

    open spec fn shl_req(self, rhs: usize) -> bool {
        true
    }

    open spec fn shl_spec(self, rhs: usize) -> Felt252 {
        Felt252::from_int(self@ * pow(2, rhs as nat))
    }
}

impl core::ops::Shr<u32> for Felt252 {
    type Output = Felt252;

    fn shr(self, rhs: u32) -> (r: Felt252) {
        let r = Felt252::shr(&self, rhs as usize);
        proof {
            vstd::arithmetic::div_mod::lemma_small_mod(r@, prime());
            Felt252::lemma_is_from_int(r, self@ as int / pow(2, rhs as nat));
        }
        r
    }
}

impl ShrSpecImpl<u32> for Felt252 {
    open spec fn obeys_shr_spec() -> bool {
        true
    }

    open spec fn shr_req(self, rhs: u32) -> bool {
        true
    }

    open spec fn shr_spec(self, rhs: u32) -> Felt252 {
        Felt252::from_int(self@ as int / pow(2, rhs as nat))
    }
}

impl core::ops::Add<u32> for Felt252 {
    type Output = Felt252;

    fn add(self, rhs: u32) -> (r: Felt252) {
        let r = Felt252::add(&self, &Felt252::from_u128(rhs as u128));
        proof {
            Felt252::lemma_is_from_int(r, self@ + rhs);
        }
        r
    }
}

impl AddSpecImpl<u32> for Felt252 {
    open spec fn obeys_add_spec() -> bool {
        true
    }

    open spec fn add_req(self, rhs: u32) -> bool {
        true
    }

    open spec fn add_spec(self, rhs: u32) -> Felt252 {
        Felt252::from_int(self@ + rhs)
    }
}

impl core::ops::Sub<u32> for Felt252 {
    type Output = Felt252;

    fn sub(self, rhs: u32) -> (r: Felt252) {
        let r = Felt252::sub(&self, &Felt252::from_u128(rhs as u128));
        proof {
            Felt252::lemma_is_from_int(r, self@ - rhs);
        }
        r
    }
}

impl SubSpecImpl<u32> for Felt252 {
    open spec fn obeys_sub_spec() -> bool {
        true
    }

    open spec fn sub_req(self, rhs: u32) -> bool {
        true
    }

    open spec fn sub_spec(self, rhs: u32) -> Felt252 {
        Felt252::from_int(self@ - rhs)
    }
}

impl core::ops::Add<usize> for Felt252 {
    type Output = Felt252;

    fn add(self, rhs: usize) -> (r: Felt252) {
        let r = Felt252::add(&self, &Felt252::from_u128(rhs as u128));
        proof {
            Felt252::lemma_is_from_int(r, self@ + rhs);
        }
        r
    }
}

impl AddSpecImpl<usize> for Felt252 {
    open spec fn obeys_add_spec() -> bool {
        true
    }

    open spec fn add_req(self, rhs: usize) -> bool {
        true
    }

    open spec fn add_spec(self, rhs: usize) -> Felt252 {
        Felt252::from_int(self@ + rhs)
    }
}

impl core::ops::Sub<usize> for Felt252 {
    type Output = Felt252;

    fn sub(self, rhs: usize) -> (r: Felt252) {
        let r = Felt252::sub(&self, &Felt252::from_u128(rhs as u128));
        proof {
            Felt252::lemma_is_from_int(r, self@ - rhs);
        }
        r
    }
}

impl SubSpecImpl<usize> for Felt252 {
    open spec fn obeys_sub_spec() -> bool {
        true
    }

    open spec fn sub_req(self, rhs: usize) -> bool {
        true
    }

    open spec fn sub_spec(self, rhs: usize) -> Felt252 {
        Felt252::from_int(self@ - rhs)
    }
}

impl<'a> core::ops::Shl<u32> for &'a Felt252 {
    type Output = Felt252;

    fn shl(self, rhs: u32) -> (r: Felt252) {
        let r = Felt252::shl(self, rhs as usize);
        proof {
            Felt252::lemma_is_from_int(r, self@ * pow(2, rhs as nat));
        }
        r
    }
}

impl<'a> ShlSpecImpl<u32> for &'a Felt252 {
    open spec fn obeys_shl_spec() -> bool {
        true
    }

    open spec fn shl_req(self, rhs: u32) -> bool {
        true
    }

    open spec fn shl_spec(self, rhs: u32) -> Felt252 {
        Felt252::from_int(self@ * pow(2, rhs as nat))
    }
}

impl<'a> core::ops::Shl<usize> for &'a Felt252 {
    type Output = Felt252;

    fn shl(self, rhs: usize) -> (r: Felt252) {
        let r = Felt252::shl(self, rhs as usize);
        proof {
            Felt252::lemma_is_from_int(r, self@ * pow(2, rhs as nat));
        }
        r
    }
}

impl<'a> ShlSpecImpl<usize> for &'a Felt252 {
    open spec fn obeys_shl_spec() -> bool {
        true
    }

    open spec fn shl_req(self, rhs: usize) -> bool {
        true
    }

    open spec fn shl_spec(self, rhs: usize) -> Felt252 {
        Felt252::from_int(self@ * pow(2, rhs as nat))
    }
}

impl<'a> core::ops::Shr<u32> for &'a Felt252 {
    type Output = Felt252;

    fn shr(self, rhs: u32) -> (r: Felt252) {
        let r = Felt252::shr(self, rhs as usize);
        proof {
            vstd::arithmetic::div_mod::lemma_small_mod(r@, prime());
            Felt252::lemma_is_from_int(r, self@ as int / pow(2, rhs as nat));
        }
        r
    }
}

impl<'a> ShrSpecImpl<u32> for &'a Felt252 {
    open spec fn obeys_shr_spec() -> bool {
        true
    }

    open spec fn shr_req(self, rhs: u32) -> bool {
        true
    }

    open spec fn shr_spec(self, rhs: u32) -> Felt252 {
        Felt252::from_int(self@ as int / pow(2, rhs as nat))
    }
}

impl<'a> core::ops::Add<u32> for &'a Felt252 {
    type Output = Felt252;

    fn add(self, rhs: u32) -> (r: Felt252) {
        let r = Felt252::add(self, &Felt252::from_u128(rhs as u128));
        proof {
            Felt252::lemma_is_from_int(r, self@ + rhs);
        }
        r
    }
}

impl<'a> AddSpecImpl<u32> for &'a Felt252 {
    open spec fn obeys_add_spec() -> bool {
        true
    }

    open spec fn add_req(self, rhs: u32) -> bool {
        true
    }

    open spec fn add_spec(self, rhs: u32) -> Felt252 {
        Felt252::from_int(self@ + rhs)
    }
}

impl<'a> core::ops::Sub<u32> for &'a Felt252 {
    type Output = Felt252;

    fn sub(self, rhs: u32) -> (r: Felt252) {
        let r = Felt252::sub(self, &Felt252::from_u128(rhs as u128));
        proof {
            Felt252::lemma_is_from_int(r, self@ - rhs);
        }
        r
    }
}

impl<'a> SubSpecImpl<u32> for &'a Felt252 {
    open spec fn obeys_sub_spec() -> bool {
        true
    }

    open spec fn sub_req(self, rhs: u32) -> bool {
        true
    }

    open spec fn sub_spec(self, rhs: u32) -> Felt252 {
        Felt252::from_int(self@ - rhs)
    }
}

impl<'a> core::ops::Add<usize> for &'a Felt252 {
    type Output = Felt252;

    fn add(self, rhs: usize) -> (r: Felt252) {
        let r = Felt252::add(self, &Felt252::from_u128(rhs as u128));
        proof {
            Felt252::lemma_is_from_int(r, self@ + rhs);
        }
        r
    }
}

impl<'a> AddSpecImpl<usize> for &'a Felt252 {
    open spec fn obeys_add_spec() -> bool {
        true
    }

    open spec fn add_req(self, rhs: usize) -> bool {
        true
    }

    open spec fn add_spec(self, rhs: usize) -> Felt252 {
        Felt252::from_int(self@ + rhs)
    }
}

impl<'a> core::ops::Sub<usize> for &'a Felt252 {
    type Output = Felt252;

    fn sub(self, rhs: usize) -> (r: Felt252) {
        let r = Felt252::sub(self, &Felt252::from_u128(rhs as u128));
        proof {
            Felt252::lemma_is_from_int(r, self@ - rhs);
        }
        r
    }
}

impl<'a> SubSpecImpl<usize> for &'a Felt252 {
    open spec fn obeys_sub_spec() -> bool {
        true
    }

    open spec fn sub_req(self, rhs: usize) -> bool {
        true
    }

    open spec fn sub_spec(self, rhs: usize) -> Felt252 {
        Felt252::from_int(self@ - rhs)
    }
}

impl core::ops::Neg for Felt252 {
    type Output = Felt252;

    fn neg(self) -> (r: Felt252) {
        let r = Felt252::neg(&self);
        proof {
            use_type_invariant(&self);
            
            let p = prime() as int;
            let v = self@ as int;
            if v == 0 {
                vstd::arithmetic::div_mod::lemma_small_mod(0, prime());
            } else {
                vstd::arithmetic::div_mod::lemma_fundamental_div_mod_converse(-v, p, -1, p - v);
            }
            Felt252::lemma_is_from_int(r, -v);
        }
        r
    }
}

impl NegSpecImpl for Felt252 {
    open spec fn obeys_neg_spec() -> bool {
        true
    }

    open spec fn neg_req(self) -> bool {
        true
    }

    open spec fn neg_spec(self) -> Felt252 {
        Felt252::from_int(-(self@ as int))
    }
}

impl<'a> core::ops::Neg for &'a Felt252 {
    type Output = Felt252;

    fn neg(self) -> (r: Felt252) {
        let r = Felt252::neg(self);
        proof {
            use_type_invariant(self);
            
            let p = prime() as int;
            let v = self@ as int;
            if v == 0 {
                vstd::arithmetic::div_mod::lemma_small_mod(0, prime());
            } else {
                vstd::arithmetic::div_mod::lemma_fundamental_div_mod_converse(-v, p, -1, p - v);
            }
            Felt252::lemma_is_from_int(r, -v);
        }
        r
    }
}

impl<'a> NegSpecImpl for &'a Felt252 {
    open spec fn obeys_neg_spec() -> bool {
        true
    }

    open spec fn neg_req(self) -> bool {
        true
    }

    open spec fn neg_spec(self) -> Felt252 {
        Felt252::from_int(-(self@ as int))
    }
}

} // verus!
