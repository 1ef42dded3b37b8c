//! Modular arithmetic on encrypted integers in the 16-bit container: every
//! sum and product is reduced as soon as it is formed. The container is twice
//! as wide as the numbers it is meant for, so that for them nothing wraps
//! before the reduction; what the result is when something does wrap is stated
//! all the same.

use crate::enc16::{
    add16, add16_scalar, decrypted16, fits16, mul16, mul16_scalar, narrow16_to_8, rem16_scalar,
    sound16, sub16, widen8_to_16, wrap16, Encrypted16,
};
use crate::enc8::{decrypted8, fits8, sound8, wrap8, Encrypted8};
use crate::engine::{serves, Evaluator};
use crate::modular::{add_mod_wrapped, mul_mod_wrapped, sub_mod_wrapped};
use tfhe::ClientKey;
use vstd::prelude::*;

verus! {

/// The product of two encrypted integers modulo `modval`.
pub fn mul_mod_16(ev: &Evaluator, a: &Encrypted16, b: &Encrypted16, modval: u16) -> (r:
    Encrypted16)
    requires
        fits16(*ev, *a),
        fits16(*ev, *b),
        modval > 0,
    ensures
        fits16(*ev, r),
        forall|k: ClientKey|
            #![trigger sound16(r, k)]
            #![trigger decrypted16(r, k)]
            serves(*ev, k) && sound16(*a, k) && sound16(*b, k) ==> sound16(r, k) && decrypted16(
                r,
                k,
            ) == mul_mod_wrapped(
                decrypted16(*a, k) as int,
                decrypted16(*b, k) as int,
                modval as int,
                wrap16(),
            ),
{
    let product = mul16(ev, a, b);
    rem16_scalar(ev, &product, modval)
}

/// The product of an encrypted integer and a clear one modulo `modval`.
pub fn mul_mod_16_scalar(ev: &Evaluator, a: &Encrypted16, s: u16, modval: u16) -> (r: Encrypted16)
    requires
        fits16(*ev, *a),
        modval > 0,
    ensures
        fits16(*ev, r),
        forall|k: ClientKey|
            #![trigger sound16(r, k)]
            #![trigger decrypted16(r, k)]
            serves(*ev, k) && sound16(*a, k) ==> sound16(r, k) && decrypted16(r, k)
                == mul_mod_wrapped(decrypted16(*a, k) as int, s as int, modval as int, wrap16()),
{
    let product = mul16_scalar(ev, a, s);
    rem16_scalar(ev, &product, modval)
}

/// The sum of two encrypted integers modulo `modval`.
pub fn add_mod_16(ev: &Evaluator, a: &Encrypted16, b: &Encrypted16, modval: u16) -> (r:
    Encrypted16)
    requires
        fits16(*ev, *a),
        fits16(*ev, *b),
        modval > 0,
    ensures
        fits16(*ev, r),
        forall|k: ClientKey|
            #![trigger sound16(r, k)]
            #![trigger decrypted16(r, k)]
            serves(*ev, k) && sound16(*a, k) && sound16(*b, k) ==> sound16(r, k) && decrypted16(
                r,
                k,
            ) == add_mod_wrapped(
                decrypted16(*a, k) as int,
                decrypted16(*b, k) as int,
                modval as int,
                wrap16(),
            ),
{
    let sum = add16(ev, a, b);
    rem16_scalar(ev, &sum, modval)
}

/// The sum of an encrypted integer and a clear one modulo `modval`.
pub fn add_mod_16_scalar(ev: &Evaluator, a: &Encrypted16, s: u16, modval: u16) -> (r: Encrypted16)
    requires
        fits16(*ev, *a),
        modval > 0,
    ensures
        fits16(*ev, r),
        forall|k: ClientKey|
            #![trigger sound16(r, k)]
            #![trigger decrypted16(r, k)]
            serves(*ev, k) && sound16(*a, k) ==> sound16(r, k) && decrypted16(r, k)
                == add_mod_wrapped(decrypted16(*a, k) as int, s as int, modval as int, wrap16()),
{
    let sum = add16_scalar(ev, a, s);
    rem16_scalar(ev, &sum, modval)
}

/// The difference of two encrypted integers modulo `modval`. The modulus is
/// added before the second number is taken away, so that the difference of two
/// residues never goes below zero.
pub fn sub_mod_16(ev: &Evaluator, a: &Encrypted16, b: &Encrypted16, modval: u16) -> (r:
    Encrypted16)
    requires
        fits16(*ev, *a),
        fits16(*ev, *b),
        modval > 0,
    ensures
        fits16(*ev, r),
        forall|k: ClientKey|
            #![trigger sound16(r, k)]
            #![trigger decrypted16(r, k)]
            serves(*ev, k) && sound16(*a, k) && sound16(*b, k) ==> sound16(r, k) && decrypted16(
                r,
                k,
            ) == sub_mod_wrapped(
                decrypted16(*a, k) as int,
                decrypted16(*b, k) as int,
                modval as int,
                wrap16(),
            ),
{
    let lifted = add16_scalar(ev, a, modval);
    let difference = sub16(ev, &lifted, b);
    rem16_scalar(ev, &difference, modval)
}

/// Moves an 8-bit integer into the 16-bit container. The value stays.
pub fn widen_8(ev: &Evaluator, a: Encrypted8) -> (r: Encrypted16)
    requires
        fits8(*ev, a),
    ensures
        fits16(*ev, r),
        forall|k: ClientKey|
            #![trigger sound16(r, k)]
            #![trigger decrypted16(r, k)]
            serves(*ev, k) && sound8(a, k) ==> sound16(r, k) && decrypted16(r, k) == decrypted8(
                a,
                k,
            ),
{
    widen8_to_16(ev, a)
}

/// Moves a 16-bit integer back into 8 bits. The value stays if it fits;
/// otherwise its low 8 bits are kept.
pub fn narrow_16(ev: &Evaluator, a: Encrypted16) -> (r: Encrypted8)
    requires
        fits16(*ev, a),
    ensures
        fits8(*ev, r),
        forall|k: ClientKey|
            #![trigger sound8(r, k)]
            #![trigger decrypted8(r, k)]
            serves(*ev, k) && sound16(a, k) ==> sound8(r, k) && decrypted8(r, k) == (decrypted16(
                a,
                k,
            ) as int) % wrap8() && (decrypted16(a, k) < wrap8() ==> decrypted8(r, k)
                == decrypted16(a, k)),
{
    let r = narrow16_to_8(ev, a);
    proof {
        assert forall|k: ClientKey| serves(*ev, k) && sound16(a, k) implies sound8(r, k)
            && decrypted8(r, k) == (decrypted16(a, k) as int) % wrap8() && (decrypted16(a, k)
            < wrap8() ==> decrypted8(r, k) == decrypted16(a, k)) by {
            if decrypted16(a, k) < wrap8() {
                vstd::arithmetic::div_mod::lemma_small_mod(
                    decrypted16(a, k) as nat,
                    wrap8() as nat,
                );
            }
        }
    }
    r
}

} // verus!
