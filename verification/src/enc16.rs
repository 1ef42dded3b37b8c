//! Unsigned integers of 16 bits under encryption, and the operations of the
//! engine on them. The functions marked `external_body` are assumptions about
//! `tfhe::FheUint16`; the rest of the library is proved from them. The engine
//! computes with the evaluation key that was installed last on the thread, so
//! every wrapper of an operation installs the key of its handle before it calls.

use crate::enc8::{decrypted8, fits8, sound8, wrap8, Encrypted8};
use crate::engine::{decrypted_bool, fits_bool, public_pair, serves, sound_bool, Evaluator};
use tfhe::{ClientKey, CompactPublicKey, FheBool, FheUint16};
use tfhe::prelude::{CastInto, FheDecrypt, FheEncrypt, FheEq, IfThenElse};
use vstd::prelude::*;

verus! {

/// A `tfhe::FheUint16`: an unsigned integer of 16 bits that only a client key
/// can read. The engine's type cannot be declared to the verifier, because the
/// bound on its parameter is private to `tfhe`, so the ciphertext is held in a
/// field that the verifier does not look into.
#[verifier::external_body]
pub struct Encrypted16 {
    pub(crate) ciphertext: FheUint16,
}

/// The number at which arithmetic on 16 bits wraps around.
pub open spec fn wrap16() -> int {
    0x1_0000
}

/// `c` was made under `client`: by encryption under it or under its public key,
/// or by the evaluation key derived from it out of ciphertexts of which the same
/// holds.
pub uninterp spec fn sound16(c: Encrypted16, client: ClientKey) -> bool;

/// What `FheUint16::decrypt` returns for `c` under `client`.
pub uninterp spec fn decrypted16(c: Encrypted16, client: ClientKey) -> u16;

/// The handle can compute on `c`: `c` was made under a client key that the
/// handle serves. The engine panics on a ciphertext that does not fit the
/// evaluation key, so every operation asks for this of what it is given, and
/// says it of what it gives back.
pub open spec fn fits16(ev: Evaluator, c: Encrypted16) -> bool {
    exists|k: ClientKey| serves(ev, k) && #[trigger] sound16(c, k)
}

/// `FheUint16::encrypt` under a client key: the ciphertext decrypts under that key
/// to `value`.
#[verifier::external_body]
fn encrypt16(value: u16, key: &ClientKey) -> (c: Encrypted16)
    ensures
        sound16(c, *key),
        decrypted16(c, *key) == value,
{
    Encrypted16 { ciphertext: FheUint16::encrypt(value, key) }
}

/// `FheUint16::encrypt` under a public key: the ciphertext decrypts to `value` under
/// the client key that the public key was derived from.
#[verifier::external_body]
fn encrypt16_public(value: u16, key: &CompactPublicKey) -> (c: Encrypted16)
    ensures
        forall|k: ClientKey|
            #![trigger sound16(c, k)]
            #![trigger decrypted16(c, k)]
            public_pair(k, *key) ==> sound16(c, k) && decrypted16(c, k) == value,
{
    Encrypted16 { ciphertext: FheUint16::encrypt(value, key) }
}

/// `FheUint16::decrypt`. The engine panics where ciphertext and key do not fit each
/// other, so the ciphertext has to be one made under the key.
#[verifier::external_body]
fn decrypt16(c: &Encrypted16, key: &ClientKey) -> (value: u16)
    requires
        sound16(*c, *key),
    ensures
        value == decrypted16(*c, *key),
{
    c.ciphertext.decrypt(key)
}

/// `FheUint16::clone`: a copy of the ciphertext.
#[verifier::external_body]
pub(crate) fn clone16(c: &Encrypted16) -> (r: Encrypted16)
    ensures
        r == *c,
{
    Encrypted16 { ciphertext: c.ciphertext.clone() }
}

/// `&FheUint16 * &FheUint16`: the product of the two values, wrapped to the width.
/// The key of the handle is installed first, with `tfhe::set_server_key`; the
/// engine panics on ciphertexts that do not fit the key.
#[verifier::external_body]
pub(crate) fn mul16(ev: &Evaluator, a: &Encrypted16, b: &Encrypted16) -> (r: Encrypted16)
    requires
        fits16(*ev, *a),
        fits16(*ev, *b),
    ensures
        fits16(*ev, r),
        forall|k: ClientKey|
            #![trigger sound16(r, k)]
            #![trigger decrypted16(r, k)]
            serves(*ev, k) && sound16(*a, k) && sound16(*b, k) ==> sound16(r, k)
                && decrypted16(r, k) == (decrypted16(*a, k) * decrypted16(*b, k)) % wrap16(),
{
    tfhe::set_server_key(ev.key.clone());
    Encrypted16 { ciphertext: &a.ciphertext * &b.ciphertext }
}

/// `&FheUint16 + &FheUint16`: the sum of the two values, wrapped to the width.
/// The key of the handle is installed first, with `tfhe::set_server_key`; the
/// engine panics on ciphertexts that do not fit the key.
#[verifier::external_body]
pub(crate) fn add16(ev: &Evaluator, a: &Encrypted16, b: &Encrypted16) -> (r: Encrypted16)
    requires
        fits16(*ev, *a),
        fits16(*ev, *b),
    ensures
        fits16(*ev, r),
        forall|k: ClientKey|
            #![trigger sound16(r, k)]
            #![trigger decrypted16(r, k)]
            serves(*ev, k) && sound16(*a, k) && sound16(*b, k) ==> sound16(r, k)
                && decrypted16(r, k) == (decrypted16(*a, k) + decrypted16(*b, k)) % wrap16(),
{
    tfhe::set_server_key(ev.key.clone());
    Encrypted16 { ciphertext: &a.ciphertext + &b.ciphertext }
}

/// `&FheUint16 - &FheUint16`: the difference of the two values, wrapped to the width.
/// The key of the handle is installed first, with `tfhe::set_server_key`; the
/// engine panics on ciphertexts that do not fit the key.
#[verifier::external_body]
pub(crate) fn sub16(ev: &Evaluator, a: &Encrypted16, b: &Encrypted16) -> (r: Encrypted16)
    requires
        fits16(*ev, *a),
        fits16(*ev, *b),
    ensures
        fits16(*ev, r),
        forall|k: ClientKey|
            #![trigger sound16(r, k)]
            #![trigger decrypted16(r, k)]
            serves(*ev, k) && sound16(*a, k) && sound16(*b, k) ==> sound16(r, k)
                && decrypted16(r, k) == (decrypted16(*a, k) - decrypted16(*b, k)) % wrap16(),
{
    tfhe::set_server_key(ev.key.clone());
    Encrypted16 { ciphertext: &a.ciphertext - &b.ciphertext }
}

/// `&FheUint16 + u16`: the value plus the clear number, wrapped to the width.
/// The key of the handle is installed first, with `tfhe::set_server_key`; the
/// engine panics on ciphertexts that do not fit the key.
#[verifier::external_body]
pub(crate) fn add16_scalar(ev: &Evaluator, a: &Encrypted16, s: u16) -> (r: Encrypted16)
    requires
        fits16(*ev, *a),
    ensures
        fits16(*ev, r),
        forall|k: ClientKey|
            #![trigger sound16(r, k)]
            #![trigger decrypted16(r, k)]
            serves(*ev, k) && sound16(*a, k) ==> sound16(r, k) && decrypted16(r, k)
                == (decrypted16(*a, k) + s) % wrap16(),
{
    tfhe::set_server_key(ev.key.clone());
    Encrypted16 { ciphertext: &a.ciphertext + s }
}

/// `&FheUint16 - u16`: the value minus the clear number, wrapped to the width.
/// The key of the handle is installed first, with `tfhe::set_server_key`; the
/// engine panics on ciphertexts that do not fit the key.
#[verifier::external_body]
pub(crate) fn sub16_scalar(ev: &Evaluator, a: &Encrypted16, s: u16) -> (r: Encrypted16)
    requires
        fits16(*ev, *a),
    ensures
        fits16(*ev, r),
        forall|k: ClientKey|
            #![trigger sound16(r, k)]
            #![trigger decrypted16(r, k)]
            serves(*ev, k) && sound16(*a, k) ==> sound16(r, k) && decrypted16(r, k)
                == (decrypted16(*a, k) - s) % wrap16(),
{
    tfhe::set_server_key(ev.key.clone());
    Encrypted16 { ciphertext: &a.ciphertext - s }
}

/// `&FheUint16 * u16`: the value times the clear number, wrapped to the width.
/// The key of the handle is installed first, with `tfhe::set_server_key`; the
/// engine panics on ciphertexts that do not fit the key.
#[verifier::external_body]
pub(crate) fn mul16_scalar(ev: &Evaluator, a: &Encrypted16, s: u16) -> (r: Encrypted16)
    requires
        fits16(*ev, *a),
    ensures
        fits16(*ev, r),
        forall|k: ClientKey|
            #![trigger sound16(r, k)]
            #![trigger decrypted16(r, k)]
            serves(*ev, k) && sound16(*a, k) ==> sound16(r, k) && decrypted16(r, k)
                == (decrypted16(*a, k) * s) % wrap16(),
{
    tfhe::set_server_key(ev.key.clone());
    Encrypted16 { ciphertext: &a.ciphertext * s }
}

/// `&FheUint16 % u16`: the remainder of the value by the clear number. The engine
/// panics on a zero divisor.
/// The key of the handle is installed first, with `tfhe::set_server_key`; the
/// engine panics on ciphertexts that do not fit the key.
#[verifier::external_body]
pub(crate) fn rem16_scalar(ev: &Evaluator, a: &Encrypted16, s: u16) -> (r: Encrypted16)
    requires
        fits16(*ev, *a),
        s != 0,
    ensures
        fits16(*ev, r),
        forall|k: ClientKey|
            #![trigger sound16(r, k)]
            #![trigger decrypted16(r, k)]
            serves(*ev, k) && sound16(*a, k) ==> sound16(r, k) && decrypted16(r, k)
                == decrypted16(*a, k) % s,
{
    tfhe::set_server_key(ev.key.clone());
    Encrypted16 { ciphertext: &a.ciphertext % s }
}

/// `&FheUint16 & u16`: the bitwise and of the value with the clear number.
/// The key of the handle is installed first, with `tfhe::set_server_key`; the
/// engine panics on ciphertexts that do not fit the key.
#[verifier::external_body]
pub(crate) fn and16_scalar(ev: &Evaluator, a: &Encrypted16, s: u16) -> (r: Encrypted16)
    requires
        fits16(*ev, *a),
    ensures
        fits16(*ev, r),
        forall|k: ClientKey|
            #![trigger sound16(r, k)]
            #![trigger decrypted16(r, k)]
            serves(*ev, k) && sound16(*a, k) ==> sound16(r, k) && decrypted16(r, k)
                == decrypted16(*a, k) & s,
{
    tfhe::set_server_key(ev.key.clone());
    Encrypted16 { ciphertext: &a.ciphertext & s }
}

/// `FheUint16::eq` with a clear number: whether the value equals it.
/// The key of the handle is installed first, with `tfhe::set_server_key`; the
/// engine panics on ciphertexts that do not fit the key.
#[verifier::external_body]
pub(crate) fn eq16_scalar(ev: &Evaluator, a: &Encrypted16, s: u16) -> (r: FheBool)
    requires
        fits16(*ev, *a),
    ensures
        fits_bool(*ev, r),
        forall|k: ClientKey|
            #![trigger sound_bool(r, k)]
            #![trigger decrypted_bool(r, k)]
            serves(*ev, k) && sound16(*a, k) ==> sound_bool(r, k) && decrypted_bool(
                r,
                k,
            ) == (decrypted16(*a, k) == s),
{
    tfhe::set_server_key(ev.key.clone());
    a.ciphertext.eq(s)
}

/// `FheBool::if_then_else` on two `FheUint16`: the first value where the condition
/// holds, the second where it does not. Nothing in the computation depends on
/// which of the two it is.
/// The key of the handle is installed first, with `tfhe::set_server_key`; the
/// engine panics on ciphertexts that do not fit the key.
#[verifier::external_body]
pub(crate) fn select16(ev: &Evaluator, cond: &FheBool, a: &Encrypted16, b: &Encrypted16) -> (r: Encrypted16)
    requires
        fits_bool(*ev, *cond),
        fits16(*ev, *a),
        fits16(*ev, *b),
    ensures
        fits16(*ev, r),
        forall|k: ClientKey|
            #![trigger sound16(r, k)]
            #![trigger decrypted16(r, k)]
            serves(*ev, k) && sound_bool(*cond, k) && sound16(*a, k) && sound16(*b, k)
                ==> sound16(r, k) && decrypted16(r, k) == (if decrypted_bool(*cond, k) {
                decrypted16(*a, k)
            } else {
                decrypted16(*b, k)
            }),
{
    tfhe::set_server_key(ev.key.clone());
    Encrypted16 { ciphertext: cond.if_then_else(&a.ciphertext, &b.ciphertext) }
}

/// `FheUint16 >>= u16`: the value shifted right by a clear number of bits.
/// The key of the handle is installed first, with `tfhe::set_server_key`; the
/// engine panics on ciphertexts that do not fit the key.
#[verifier::external_body]
pub(crate) fn shr16_assign(ev: &Evaluator, a: &mut Encrypted16, shift: u16)
    requires
        fits16(*ev, *old(a)),
        shift < 16,
    ensures
        fits16(*ev, *final(a)),
        forall|k: ClientKey|
            #![trigger sound16(*final(a), k)]
            #![trigger decrypted16(*final(a), k)]
            serves(*ev, k) && sound16(*old(a), k) ==> sound16(*final(a), k)
                && decrypted16(*final(a), k) == decrypted16(*old(a), k) >> shift,
{
    tfhe::set_server_key(ev.key.clone());
    a.ciphertext >>= shift;
}

/// `FheUint8::cast_into` to `FheUint16`: the same value in the wider container.
/// The key of the handle is installed first, with `tfhe::set_server_key`; the
/// engine panics on ciphertexts that do not fit the key.
#[verifier::external_body]
pub(crate) fn widen8_to_16(ev: &Evaluator, a: Encrypted8) -> (r: Encrypted16)
    requires
        fits8(*ev, a),
    ensures
        fits16(*ev, r),
        forall|k: ClientKey|
            #![trigger sound16(r, k)]
            #![trigger decrypted16(r, k)]
            serves(*ev, k) && sound8(a, k) ==> sound16(r, k) && decrypted16(r, k)
                == decrypted8(a, k),
{
    tfhe::set_server_key(ev.key.clone());
    Encrypted16 { ciphertext: a.ciphertext.cast_into() }
}

/// `FheUint16::cast_into` to `FheUint8`: the low 8 bits of the value.
/// The key of the handle is installed first, with `tfhe::set_server_key`; the
/// engine panics on ciphertexts that do not fit the key.
#[verifier::external_body]
pub(crate) fn narrow16_to_8(ev: &Evaluator, a: Encrypted16) -> (r: Encrypted8)
    requires
        fits16(*ev, a),
    ensures
        fits8(*ev, r),
        forall|k: ClientKey|
            #![trigger sound8(r, k)]
            #![trigger decrypted8(r, k)]
            serves(*ev, k) && sound16(a, k) ==> sound8(r, k) && decrypted8(r, k)
                == (decrypted16(a, k) as int) % wrap8(),
{
    tfhe::set_server_key(ev.key.clone());
    Encrypted8 { ciphertext: a.ciphertext.cast_into() }
}

impl Encrypted16 {
    /// Encrypts `value` under the client key.
    pub fn encrypt(value: u16, key: &ClientKey) -> (c: Encrypted16)
        ensures
            sound16(c, *key),
            decrypted16(c, *key) == value,
    {
        encrypt16(value, key)
    }

    /// Encrypts `value` under a public key, for the holder of the client key that
    /// it was derived from.
    pub fn encrypt_public(value: u16, key: &CompactPublicKey) -> (c: Encrypted16)
        ensures
            forall|k: ClientKey|
                #![trigger sound16(c, k)]
                #![trigger decrypted16(c, k)]
                public_pair(k, *key) ==> sound16(c, k) && decrypted16(c, k) == value,
    {
        encrypt16_public(value, key)
    }

    /// Decrypts with the client key that the ciphertext was made under.
    pub fn decrypt(&self, key: &ClientKey) -> (value: u16)
        requires
            sound16(*self, *key),
        ensures
            value == decrypted16(*self, *key),
    {
        decrypt16(self, key)
    }
}

} // verus!
