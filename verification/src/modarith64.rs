//! Modular arithmetic on encrypted integers in the 64-bit container: every
//! sum and product is reduced as soon as it is formed. The container is twice
//! as wide as the numbers it is meant for, so that for them nothing wraps
//! before the reduction; what the result is when something does wrap is stated
//! all the same.

use crate::enc32::{decrypted32, fits32, sound32, wrap32, Encrypted32};
use crate::enc64::{
    add64, add64_scalar, decrypted64, fits64, mul64, mul64_scalar, narrow64_to_32, rem64_scalar,
    sound64, sub64, widen32_to_64, wrap64, Encrypted64,
};
use crate::engine::{serves, Evaluator};
use crate::modular::{add_mod_wrapped, mul_mod_wrapped, sub_mod_wrapped};
use tfhe::ClientKey;
use vstd::prelude::*;

verus! {

/// The product of two encrypted integers modulo `modval`.
pub fn mul_mod_64(ev: &Evaluator, a: &Encrypted64, b: &Encrypted64, modval: u64) -> (r:
    Encrypted64)
    requires
        fits64(*ev, *a),
        fits64(*ev, *b),
        modval > 0,
    ensures
        fits64(*ev, r),
        forall|k: ClientKey|
            #![trigger sound64(r, k)]
            #![trigger decrypted64(r, k)]
            serves(*ev, k) && sound64(*a, k) && sound64(*b, k) ==> sound64(r, k) && decrypted64(
                r,
                k,
            ) == mul_mod_wrapped(
                decrypted64(*a, k) as int,
                decrypted64(*b, k) as int,
                modval as int,
                wrap64(),
            ),
{
    let product = mul64(ev, a, b);
    rem64_scalar(ev, &product, modval)
}

/// The product of an encrypted integer and a clear one modulo `modval`.
pub fn mul_mod_64_scalar(ev: &Evaluator, a: &Encrypted64, s: u64, modval: u64) -> (r: Encrypted64)
    requires
        fits64(*ev, *a),
        modval > 0,
    ensures
        fits64(*ev, r),
        forall|k: ClientKey|
            #![trigger sound64(r, k)]
            #![trigger decrypted64(r, k)]
            serves(*ev, k) && sound64(*a, k) ==> sound64(r, k) && decrypted64(r, k)
                == mul_mod_wrapped(decrypted64(*a, k) as int, s as int, modval as int, wrap64()),
{
    let product = mul64_scalar(ev, a, s);
    rem64_scalar(ev, &product, modval)
}

/// The sum of two encrypted integers modulo `modval`.
pub fn add_mod_64(ev: &Evaluator, a: &Encrypted64, b: &Encrypted64, modval: u64) -> (r:
    Encrypted64)
    requires
        fits64(*ev, *a),
        fits64(*ev, *b),
        modval > 0,
    ensures
        fits64(*ev, r),
        forall|k: ClientKey|
            #![trigger sound64(r, k)]
            #![trigger decrypted64(r, k)]
            serves(*ev, k) && sound64(*a, k) && sound64(*b, k) ==> sound64(r, k) && decrypted64(
                r,
                k,
            ) == add_mod_wrapped(
                decrypted64(*a, k) as int,
                decrypted64(*b, k) as int,
                modval as int,
                wrap64(),
            ),
{
    let sum = add64(ev, a, b);
    rem64_scalar(ev, &sum, modval)
}

/// The sum of an encrypted integer and a clear one modulo `modval`.
pub fn add_mod_64_scalar(ev: &Evaluator, a: &Encrypted64, s: u64, modval: u64) -> (r: Encrypted64)
    requires
        fits64(*ev, *a),
        modval > 0,
    ensures
        fits64(*ev, r),
        forall|k: ClientKey|
            #![trigger sound64(r, k)]
            #![trigger decrypted64(r, k)]
            serves(*ev, k) && sound64(*a, k) ==> sound64(r, k) && decrypted64(r, k)
                == add_mod_wrapped(decrypted64(*a, k) as int, s as int, modval as int, wrap64()),
{
    let sum = add64_scalar(ev, a, s);
    rem64_scalar(ev, &sum, modval)
}

/// The difference of two encrypted integers modulo `modval`. The modulus is
/// added before the second number is taken away, so that the difference of two
/// residues never goes below zero.
pub fn sub_mod_64(ev: &Evaluator, a: &Encrypted64, b: &Encrypted64, modval: u64) -> (r:
    Encrypted64)
    requires
        fits64(*ev, *a),
        fits64(*ev, *b),
        modval > 0,
    ensures
        fits64(*ev, r),
        forall|k: ClientKey|
            #![trigger sound64(r, k)]
            #![trigger decrypted64(r, k)]
            serves(*ev, k) && sound64(*a, k) && sound64(*b, k) ==> sound64(r, k) && decrypted64(
                r,
                k,
            ) == sub_mod_wrapped(
                decrypted64(*a, k) as int,
                decrypted64(*b, k) as int,
                modval as int,
                wrap64(),
            ),
{
    let lifted = add64_scalar(ev, a, modval);
    let difference = sub64(ev, &lifted, b);
    rem64_scalar(ev, &difference, modval)
}

/// Moves a 32-bit integer into the 64-bit container. The value stays.
pub fn widen_32(ev: &Evaluator, a: Encrypted32) -> (r: Encrypted64)
    requires
        fits32(*ev, a),
    ensures
        fits64(*ev, r),
        forall|k: ClientKey|
            #![trigger sound64(r, k)]
            #![trigger decrypted64(r, k)]
            serves(*ev, k) && sound32(a, k) ==> sound64(r, k) && decrypted64(r, k) == decrypted32(
                a,
                k,
            ),
{
    widen32_to_64(ev, a)
}

/// Moves a 64-bit integer back into 32 bits. The value stays if it fits;
/// otherwise its low 32 bits are kept.
pub fn narrow_64(ev: &Evaluator, a: Encrypted64) -> (r: Encrypted32)
    requires
        fits64(*ev, a),
    ensures
        fits32(*ev, r),
        forall|k: ClientKey|
            #![trigger sound32(r, k)]
            #![trigger decrypted32(r, k)]
            serves(*ev, k) && sound64(a, k) ==> sound32(r, k) && decrypted32(r, k) == (decrypted64(
                a,
                k,
            ) as int) % wrap32() && (decrypted64(a, k) < wrap32() ==> decrypted32(r, k)
                == decrypted64(a, k)),
{
    let r = narrow64_to_32(ev, a);
    proof {
        assert forall|k: ClientKey| serves(*ev, k) && sound64(a, k) implies sound32(r, k)
            && decrypted32(r, k) == (decrypted64(a, k) as int) % wrap32() && (decrypted64(a, k)
            < wrap32() ==> decrypted32(r, k) == decrypted64(a, k)) by {
            if decrypted64(a, k) < wrap32() {
                vstd::arithmetic::div_mod::lemma_small_mod(
                    decrypted64(a, k) as nat,
                    wrap32() as nat,
                );
            }
        }
    }
    r
}

} // verus!
