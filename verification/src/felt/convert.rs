//! Conversions from machine integers to field elements.

use super::{pow2_128, prime, Felt252};
use vstd::prelude::*;
use vstd::std_specs::convert::FromSpecImpl;

verus! {

impl Felt252 {
    /// The canonical field element congruent to `v`.
    pub closed spec fn from_int(v: int) -> Felt252 {
        Felt252 {
            hi: ((v % (prime() as int)) / (pow2_128() as int)) as u128,
            lo: ((v % (prime() as int)) % (pow2_128() as int)) as u128,
        }
    }

    /// `from_int(v)` denotes `v` reduced modulo the prime.
    pub broadcast proof fn lemma_from_int(v: int)
        ensures
            (#[trigger] Felt252::from_int(v))@ == v % (prime() as int),
            Felt252::from_int(v)@ < prime(),
    {
        vstd::arithmetic::div_mod::lemma_mod_bound(v, prime() as int);
    }

    /// An element whose value is `v` reduced modulo the prime is `from_int(v)`.
    pub proof fn lemma_is_from_int(r: Felt252, v: int)
        requires
            r@ == v % (prime() as int),
        ensures
            r == Felt252::from_int(v),
    {
        Felt252::lemma_from_int(v);
        Felt252::lemma_view_injective(r, Felt252::from_int(v));
    }

    /// Two field elements with the same value are the same element.
    pub proof fn lemma_view_injective(a: Felt252, b: Felt252)
        requires
            a@ == b@,
        ensures
            a == b,
    {
    }

    /// A canonical element is `from_int` of its value.
    pub proof fn lemma_from_int_of_view(a: Felt252)
        requires
            a@ < prime(),
        ensures
            a == Felt252::from_int(a@ as int),
    {
        vstd::arithmetic::div_mod::lemma_small_mod(a@, prime());
        Felt252::lemma_from_int(a@ as int);
        Felt252::lemma_view_injective(a, Felt252::from_int(a@ as int));
    }

    /// Brings to the verifier's notice that this element is `from_int` of its
    /// value.
    pub fn note_canonical(&self)
        ensures
            *self == Felt252::from_int(self@ as int),
            self@ < prime(),
    {
        proof {
            use_type_invariant(self);
            Felt252::lemma_from_int_of_view(*self);
        }
    }

    /// The field element with the value `v`, which must be below the prime.
    pub fn constant(v: u128) -> (r: Felt252)
        ensures
            r == Felt252::from_int(v as int),
            r@ == v,
    {
        let r = Felt252::from_u128(v);
        r.note_canonical();
        r
    }

    /// The field element that a machine integer converts to.
    pub fn new<T: Into<Felt252>>(value: T) -> (r: Felt252)
        ensures
            call_ensures(T::into, (value,), r),
    {
        value.into()
    }
}

impl From<u8> for Felt252 {
    fn from(value: u8) -> (r: Felt252) {
        let r = Felt252::from_u128(value as u128);
        proof {
            vstd::arithmetic::div_mod::lemma_small_mod(value as nat, prime());
            Felt252::lemma_from_int(value as int);
            Felt252::lemma_view_injective(r, Felt252::from_int(value as int));
        }
        r
    }
}

impl FromSpecImpl<u8> for Felt252 {
    open spec fn obeys_from_spec() -> bool {
        true
    }

    open spec fn from_spec(value: u8) -> Felt252 {
        Felt252::from_int(value as int)
    }
}

impl From<u16> for Felt252 {
    fn from(value: u16) -> (r: Felt252) {
        let r = Felt252::from_u128(value as u128);
        proof {
            vstd::arithmetic::div_mod::lemma_small_mod(value as nat, prime());
            Felt252::lemma_from_int(value as int);
            Felt252::lemma_view_injective(r, Felt252::from_int(value as int));
        }
        r
    }
}

impl FromSpecImpl<u16> for Felt252 {
    open spec fn obeys_from_spec() -> bool {
        true
    }

    open spec fn from_spec(value: u16) -> Felt252 {
        Felt252::from_int(value as int)
    }
}

impl From<u32> for Felt252 {
    fn from(value: u32) -> (r: Felt252) {
        let r = Felt252::from_u128(value as u128);
        proof {
            vstd::arithmetic::div_mod::lemma_small_mod(value as nat, prime());
            Felt252::lemma_from_int(value as int);
            Felt252::lemma_view_injective(r, Felt252::from_int(value as int));
        }
        r
    }
}

impl FromSpecImpl<u32> for Felt252 {
    open spec fn obeys_from_spec() -> bool {
        true
    }

    open spec fn from_spec(value: u32) -> Felt252 {
        Felt252::from_int(value as int)
    }
}

impl From<u64> for Felt252 {
    fn from(value: u64) -> (r: Felt252) {
        let r = Felt252::from_u128(value as u128);
        proof {
            vstd::arithmetic::div_mod::lemma_small_mod(value as nat, prime());
            Felt252::lemma_from_int(value as int);
            Felt252::lemma_view_injective(r, Felt252::from_int(value as int));
        }
        r
    }
}

impl FromSpecImpl<u64> for Felt252 {
    open spec fn obeys_from_spec() -> bool {
        true
    }

    open spec fn from_spec(value: u64) -> Felt252 {
        Felt252::from_int(value as int)
    }
}

impl From<u128> for Felt252 {
    fn from(value: u128) -> (r: Felt252) {
        let r = Felt252::from_u128(value as u128);
        proof {
            vstd::arithmetic::div_mod::lemma_small_mod(value as nat, prime());
            Felt252::lemma_from_int(value as int);
            Felt252::lemma_view_injective(r, Felt252::from_int(value as int));
        }
        r
    }
}

impl FromSpecImpl<u128> for Felt252 {
    open spec fn obeys_from_spec() -> bool {
        true
    }

    open spec fn from_spec(value: u128) -> Felt252 {
        Felt252::from_int(value as int)
    }
}

impl From<usize> for Felt252 {
    fn from(value: usize) -> (r: Felt252) {
        let r = Felt252::from_u128(value as u128);
        proof {
            vstd::arithmetic::div_mod::lemma_small_mod(value as nat, prime());
            Felt252::lemma_from_int(value as int);
            Felt252::lemma_view_injective(r, Felt252::from_int(value as int));
        }
        r
    }
}

impl FromSpecImpl<usize> for Felt252 {
    open spec fn obeys_from_spec() -> bool {
        true
    }

    open spec fn from_spec(value: usize) -> Felt252 {
        Felt252::from_int(value as int)
    }
}

impl From<i8> for Felt252 {
    fn from(value: i8) -> (r: Felt252) {
        let r = Felt252::from_i128(value as i128);
        proof {
            Felt252::lemma_from_int(value as int);
            Felt252::lemma_view_injective(r, Felt252::from_int(value as int));
        }
        r
    }
}

impl FromSpecImpl<i8> for Felt252 {
    open spec fn obeys_from_spec() -> bool {
        true
    }

    open spec fn from_spec(value: i8) -> Felt252 {
        Felt252::from_int(value as int)
    }
}

impl From<i16> for Felt252 {
    fn from(value: i16) -> (r: Felt252) {
        let r = Felt252::from_i128(value as i128);
        proof {
            Felt252::lemma_from_int(value as int);
            Felt252::lemma_view_injective(r, Felt252::from_int(value as int));
        }
        r
    }
}

impl FromSpecImpl<i16> for Felt252 {
    open spec fn obeys_from_spec() -> bool {
        true
    }

    open spec fn from_spec(value: i16) -> Felt252 {
        Felt252::from_int(value as int)
    }
}

impl From<i32> for Felt252 {
    fn from(value: i32) -> (r: Felt252) {
        let r = Felt252::from_i128(value as i128);
        proof {
            Felt252::lemma_from_int(value as int);
            Felt252::lemma_view_injective(r, Felt252::from_int(value as int));
        }
        r
    }
}

impl FromSpecImpl<i32> for Felt252 {
    open spec fn obeys_from_spec() -> bool {
        true
    }

    open spec fn from_spec(value: i32) -> Felt252 {
        Felt252::from_int(value as int)
    }
}

impl From<i64> for Felt252 {
    fn from(value: i64) -> (r: Felt252) {
        let r = Felt252::from_i128(value as i128);
        proof {
            Felt252::lemma_from_int(value as int);
            Felt252::lemma_view_injective(r, Felt252::from_int(value as int));
        }
        r
    }
}

impl FromSpecImpl<i64> for Felt252 {
    open spec fn obeys_from_spec() -> bool {
        true
    }

    open spec fn from_spec(value: i64) -> Felt252 {
        Felt252::from_int(value as int)
    }
}

impl From<i128> for Felt252 {
    fn from(value: i128) -> (r: Felt252) {
        let r = Felt252::from_i128(value as i128);
        proof {
            Felt252::lemma_from_int(value as int);
            Felt252::lemma_view_injective(r, Felt252::from_int(value as int));
        }
        r
    }
}

impl FromSpecImpl<i128> for Felt252 {
    open spec fn obeys_from_spec() -> bool {
        true
    }

    open spec fn from_spec(value: i128) -> Felt252 {
        Felt252::from_int(value as int)
    }
}

impl From<isize> for Felt252 {
    fn from(value: isize) -> (r: Felt252) {
        let r = Felt252::from_i128(value as i128);
        proof {
            Felt252::lemma_from_int(value as int);
            Felt252::lemma_view_injective(r, Felt252::from_int(value as int));
        }
        r
    }
}

impl FromSpecImpl<isize> for Felt252 {
    open spec fn obeys_from_spec() -> bool {
        true
    }

    open spec fn from_spec(value: isize) -> Felt252 {
        Felt252::from_int(value as int)
    }
}

} // verus!
