//! Unsigned integers of 64 bits under encryption, and the operations of the
//! engine on them. The functions marked `external_body` are assumptions about
//! `tfhe::FheUint64`; the rest of the library is proved from them. The engine
//! computes with the evaluation key that was installed last on the thread, so
//! every wrapper of an operation installs the key of its handle before it calls.

use crate::enc32::{decrypted32, fits32, sound32, wrap32, Encrypted32};
use crate::engine::{decrypted_bool, fits_bool, public_pair, serves, sound_bool, Evaluator};
use tfhe::{ClientKey, CompactPublicKey, FheBool, FheUint64};
use tfhe::prelude::{CastInto, FheDecrypt, FheEncrypt, FheEq, IfThenElse};
use vstd::prelude::*;

verus! {

/// A `tfhe::FheUint64`: an unsigned integer of 64 bits that only a client key
/// can read. The engine's type cannot be declared to the verifier, because the
/// bound on its parameter is private to `tfhe`, so the ciphertext is held in a
/// field that the verifier does not look into.
#[verifier::external_body]
pub struct Encrypted64 {
    pub(crate) ciphertext: FheUint64,
}

/// The number at which arithmetic on 64 bits wraps around.
pub open spec fn wrap64() -> int {
    0x1_0000_0000_0000_0000
}

/// `c` was made under `client`: by encryption under it or under its public key,
/// or by the evaluation key derived from it out of ciphertexts of which the same
/// holds.
pub uninterp spec fn sound64(c: Encrypted64, client: ClientKey) -> bool;

/// What `FheUint64::decrypt` returns for `c` under `client`.
pub uninterp spec fn decrypted64(c: Encrypted64, client: ClientKey) -> u64;

/// The handle can compute on `c`: `c` was made under a client key that the
/// handle serves. The engine panics on a ciphertext that does not fit the
/// evaluation key, so every operation asks for this of what it is given, and
/// says it of what it gives back.
pub open spec fn fits64(ev: Evaluator, c: Encrypted64) -> bool {
    exists|k: ClientKey| serves(ev, k) && #[trigger] sound64(c, k)
}

/// `FheUint64::encrypt` under a client key: the ciphertext decrypts under that key
/// to `value`.
#[verifier::external_body]
fn encrypt64(value: u64, key: &ClientKey) -> (c: Encrypted64)
    ensures
        sound64(c, *key),
        decrypted64(c, *key) == value,
{
    Encrypted64 { ciphertext: FheUint64::encrypt(value, key) }
}

/// `FheUint64::encrypt` under a public key: the ciphertext decrypts to `value` under
/// the client key that the public key was derived from.
#[verifier::external_body]
fn encrypt64_public(value: u64, key: &CompactPublicKey) -> (c: Encrypted64)
    ensures
        forall|k: ClientKey|
            #![trigger sound64(c, k)]
            #![trigger decrypted64(c, k)]
            public_pair(k, *key) ==> sound64(c, k) && decrypted64(c, k) == value,
{
    Encrypted64 { ciphertext: FheUint64::encrypt(value, key) }
}

/// `FheUint64::decrypt`. The engine panics where ciphertext and key do not fit each
/// other, so the ciphertext has to be one made under the key.
#[verifier::external_body]
fn decrypt64(c: &Encrypted64, key: &ClientKey) -> (value: u64)
    requires
        sound64(*c, *key),
    ensures
        value == decrypted64(*c, *key),
{
    c.ciphertext.decrypt(key)
}

/// `FheUint64::clone`: a copy of the ciphertext.
#[verifier::external_body]
pub(crate) fn clone64(c: &Encrypted64) -> (r: Encrypted64)
    ensures
        r == *c,
{
    Encrypted64 { ciphertext: c.ciphertext.clone() }
}

/// `&FheUint64 * &FheUint64`: the product of the two values, wrapped to the width.
/// The key of the handle is installed first, with `tfhe::set_server_key`; the
/// engine panics on ciphertexts that do not fit the key.
#[verifier::external_body]
pub(crate) fn mul64(ev: &Evaluator, a: &Encrypted64, b: &Encrypted64) -> (r: Encrypted64)
    requires
        fits64(*ev, *a),
        fits64(*ev, *b),
    ensures
        fits64(*ev, r),
        forall|k: ClientKey|
            #![trigger sound64(r, k)]
            #![trigger decrypted64(r, k)]
            serves(*ev, k) && sound64(*a, k) && sound64(*b, k) ==> sound64(r, k)
                && decrypted64(r, k) == (decrypted64(*a, k) * decrypted64(*b, k)) % wrap64(),
{
    tfhe::set_server_key(ev.key.clone());
    Encrypted64 { ciphertext: &a.ciphertext * &b.ciphertext }
}

/// `&FheUint64 + &FheUint64`: the sum of the two values, wrapped to the width.
/// The key of the handle is installed first, with `tfhe::set_server_key`; the
/// engine panics on ciphertexts that do not fit the key.
#[verifier::external_body]
pub(crate) fn add64(ev: &Evaluator, a: &Encrypted64, b: &Encrypted64) -> (r: Encrypted64)
    requires
        fits64(*ev, *a),
        fits64(*ev, *b),
    ensures
        fits64(*ev, r),
        forall|k: ClientKey|
            #![trigger sound64(r, k)]
            #![trigger decrypted64(r, k)]
            serves(*ev, k) && sound64(*a, k) && sound64(*b, k) ==> sound64(r, k)
                && decrypted64(r, k) == (decrypted64(*a, k) + decrypted64(*b, k)) % wrap64(),
{
    tfhe::set_server_key(ev.key.clone());
    Encrypted64 { ciphertext: &a.ciphertext + &b.ciphertext }
}

/// `&FheUint64 - &FheUint64`: the difference of the two values, wrapped to the width.
/// The key of the handle is installed first, with `tfhe::set_server_key`; the
/// engine panics on ciphertexts that do not fit the key.
#[verifier::external_body]
pub(crate) fn sub64(ev: &Evaluator, a: &Encrypted64, b: &Encrypted64) -> (r: Encrypted64)
    requires
        fits64(*ev, *a),
        fits64(*ev, *b),
    ensures
        fits64(*ev, r),
        forall|k: ClientKey|
            #![trigger sound64(r, k)]
            #![trigger decrypted64(r, k)]
            serves(*ev, k) && sound64(*a, k) && sound64(*b, k) ==> sound64(r, k)
                && decrypted64(r, k) == (decrypted64(*a, k) - decrypted64(*b, k)) % wrap64(),
{
    tfhe::set_server_key(ev.key.clone());
    Encrypted64 { ciphertext: &a.ciphertext - &b.ciphertext }
}

/// `&FheUint64 + u64`: the value plus the clear number, wrapped to the width.
/// The key of the handle is installed first, with `tfhe::set_server_key`; the
/// engine panics on ciphertexts that do not fit the key.
#[verifier::external_body]
pub(crate) fn add64_scalar(ev: &Evaluator, a: &Encrypted64, s: u64) -> (r: Encrypted64)
    requires
        fits64(*ev, *a),
    ensures
        fits64(*ev, r),
        forall|k: ClientKey|
            #![trigger sound64(r, k)]
            #![trigger decrypted64(r, k)]
            serves(*ev, k) && sound64(*a, k) ==> sound64(r, k) && decrypted64(r, k)
                == (decrypted64(*a, k) + s) % wrap64(),
{
    tfhe::set_server_key(ev.key.clone());
    Encrypted64 { ciphertext: &a.ciphertext + s }
}

/// `&FheUint64 - u64`: the value minus the clear number, wrapped to the width.
/// The key of the handle is installed first, with `tfhe::set_server_key`; the
/// engine panics on ciphertexts that do not fit the key.
#[verifier::external_body]
pub(crate) fn sub64_scalar(ev: &Evaluator, a: &Encrypted64, s: u64) -> (r: Encrypted64)
    requires
        fits64(*ev, *a),
    ensures
        fits64(*ev, r),
        forall|k: ClientKey|
            #![trigger sound64(r, k)]
            #![trigger decrypted64(r, k)]
            serves(*ev, k) && sound64(*a, k) ==> sound64(r, k) && decrypted64(r, k)
                == (decrypted64(*a, k) - s) % wrap64(),
{
    tfhe::set_server_key(ev.key.clone());
    Encrypted64 { ciphertext: &a.ciphertext - s }
}

/// `&FheUint64 * u64`: the value times the clear number, wrapped to the width.
/// The key of the handle is installed first, with `tfhe::set_server_key`; the
/// engine panics on ciphertexts that do not fit the key.
#[verifier::external_body]
pub(crate) fn mul64_scalar(ev: &Evaluator, a: &Encrypted64, s: u64) -> (r: Encrypted64)
    requires
        fits64(*ev, *a),
    ensures
        fits64(*ev, r),
        forall|k: ClientKey|
            #![trigger sound64(r, k)]
            #![trigger decrypted64(r, k)]
            serves(*ev, k) && sound64(*a, k) ==> sound64(r, k) && decrypted64(r, k)
                == (decrypted64(*a, k) * s) % wrap64(),
{
    tfhe::set_server_key(ev.key.clone());
    Encrypted64 { ciphertext: &a.ciphertext * s }
}

/// `&FheUint64 % u64`: the remainder of the value by the clear number. The engine
/// panics on a zero divisor.
/// The key of the handle is installed first, with `tfhe::set_server_key`; the
/// engine panics on ciphertexts that do not fit the key.
#[verifier::external_body]
pub(crate) fn rem64_scalar(ev: &Evaluator, a: &Encrypted64, s: u64) -> (r: Encrypted64)
    requires
        fits64(*ev, *a),
        s != 0,
    ensures
        fits64(*ev, r),
        forall|k: ClientKey|
            #![trigger sound64(r, k)]
            #![trigger decrypted64(r, k)]
            serves(*ev, k) && sound64(*a, k) ==> sound64(r, k) && decrypted64(r, k)
                == decrypted64(*a, k) % s,
{
    tfhe::set_server_key(ev.key.clone());
    Encrypted64 { ciphertext: &a.ciphertext % s }
}

/// `&FheUint64 & u64`: the bitwise and of the value with the clear number.
/// The key of the handle is installed first, with `tfhe::set_server_key`; the
/// engine panics on ciphertexts that do not fit the key.
#[verifier::external_body]
pub(crate) fn and64_scalar(ev: &Evaluator, a: &Encrypted64, s: u64) -> (r: Encrypted64)
    requires
        fits64(*ev, *a),
    ensures
        fits64(*ev, r),
        forall|k: ClientKey|
            #![trigger sound64(r, k)]
            #![trigger decrypted64(r, k)]
            serves(*ev, k) && sound64(*a, k) ==> sound64(r, k) && decrypted64(r, k)
                == decrypted64(*a, k) & s,
{
    tfhe::set_server_key(ev.key.clone());
    Encrypted64 { ciphertext: &a.ciphertext & s }
}

/// `FheUint64::eq` with a clear number: whether the value equals it.
/// The key of the handle is installed first, with `tfhe::set_server_key`; the
/// engine panics on ciphertexts that do not fit the key.
#[verifier::external_body]
pub(crate) fn eq64_scalar(ev: &Evaluator, a: &Encrypted64, s: u64) -> (r: FheBool)
    requires
        fits64(*ev, *a),
    ensures
        fits_bool(*ev, r),
        forall|k: ClientKey|
            #![trigger sound_bool(r, k)]
            #![trigger decrypted_bool(r, k)]
            serves(*ev, k) && sound64(*a, k) ==> sound_bool(r, k) && decrypted_bool(
                r,
                k,
            ) == (decrypted64(*a, k) == s),
{
    tfhe::set_server_key(ev.key.clone());
    a.ciphertext.eq(s)
}

/// `FheBool::if_then_else` on two `FheUint64`: the first value where the condition
/// holds, the second where it does not. Nothing in the computation depends on
/// which of the two it is.
/// The key of the handle is installed first, with `tfhe::set_server_key`; the
/// engine panics on ciphertexts that do not fit the key.
#[verifier::external_body]
pub(crate) fn select64(ev: &Evaluator, cond: &FheBool, a: &Encrypted64, b: &Encrypted64) -> (r: Encrypted64)
    requires
        fits_bool(*ev, *cond),
        fits64(*ev, *a),
        fits64(*ev, *b),
    ensures
        fits64(*ev, r),
        forall|k: ClientKey|
            #![trigger sound64(r, k)]
            #![trigger decrypted64(r, k)]
            serves(*ev, k) && sound_bool(*cond, k) && sound64(*a, k) && sound64(*b, k)
                ==> sound64(r, k) && decrypted64(r, k) == (if decrypted_bool(*cond, k) {
                decrypted64(*a, k)
            } else {
                decrypted64(*b, k)
            }),
{
    tfhe::set_server_key(ev.key.clone());
    Encrypted64 { ciphertext: cond.if_then_else(&a.ciphertext, &b.ciphertext) }
}

/// `FheUint64 >>= u64`: the value shifted right by a clear number of bits.
/// The key of the handle is installed first, with `tfhe::set_server_key`; the
/// engine panics on ciphertexts that do not fit the key.
#[verifier::external_body]
pub(crate) fn shr64_assign(ev: &Evaluator, a: &mut Encrypted64, shift: u64)
    requires
        fits64(*ev, *old(a)),
        shift < 64,
    ensures
        fits64(*ev, *final(a)),
        forall|k: ClientKey|
            #![trigger sound64(*final(a), k)]
            #![trigger decrypted64(*final(a), k)]
            serves(*ev, k) && sound64(*old(a), k) ==> sound64(*final(a), k)
                && decrypted64(*final(a), k) == decrypted64(*old(a), k) >> shift,
{
    tfhe::set_server_key(ev.key.clone());
    a.ciphertext >>= shift;
}

/// `FheUint32::cast_into` to `FheUint64`: the same value in the wider container.
/// The key of the handle is installed first, with `tfhe::set_server_key`; the
/// engine panics on ciphertexts that do not fit the key.
#[verifier::external_body]
pub(crate) fn widen32_to_64(ev: &Evaluator, a: Encrypted32) -> (r: Encrypted64)
    requires
        fits32(*ev, a),
    ensures
        fits64(*ev, r),
        forall|k: ClientKey|
            #![trigger sound64(r, k)]
            #![trigger decrypted64(r, k)]
            serves(*ev, k) && sound32(a, k) ==> sound64(r, k) && decrypted64(r, k)
                == decrypted32(a, k),
{
    tfhe::set_server_key(ev.key.clone());
    Encrypted64 { ciphertext: a.ciphertext.cast_into() }
}

/// `FheUint64::cast_into` to `FheUint32`: the low 32 bits of the value.
/// The key of the handle is installed first, with `tfhe::set_server_key`; the
/// engine panics on ciphertexts that do not fit the key.
#[verifier::external_body]
pub(crate) fn narrow64_to_32(ev: &Evaluator, a: Encrypted64) -> (r: Encrypted32)
    requires
        fits64(*ev, a),
    ensures
        fits32(*ev, r),
        forall|k: ClientKey|
            #![trigger sound32(r, k)]
            #![trigger decrypted32(r, k)]
            serves(*ev, k) && sound64(a, k) ==> sound32(r, k) && decrypted32(r, k)
                == (decrypted64(a, k) as int) % wrap32(),
{
    tfhe::set_server_key(ev.key.clone());
    Encrypted32 { ciphertext: a.ciphertext.cast_into() }
}

impl Encrypted64 {
    /// Encrypts `value` under the client key.
    pub fn encrypt(value: u64, key: &ClientKey) -> (c: Encrypted64)
        ensures
            sound64(c, *key),
            decrypted64(c, *key) == value,
    {
        encrypt64(value, key)
    }

    /// Encrypts `value` under a public key, for the holder of the client key that
    /// it was derived from.
    pub fn encrypt_public(value: u64, key: &CompactPublicKey) -> (c: Encrypted64)
        ensures
            forall|k: ClientKey|
                #![trigger sound64(c, k)]
                #![trigger decrypted64(c, k)]
                public_pair(k, *key) ==> sound64(c, k) && decrypted64(c, k) == value,
    {
        encrypt64_public(value, key)
    }

    /// Decrypts with the client key that the ciphertext was made under.
    pub fn decrypt(&self, key: &ClientKey) -> (value: u64)
        requires
            sound64(*self, *key),
        ensures
            value == decrypted64(*self, *key),
    {
        decrypt64(self, key)
    }
}

} // verus!
