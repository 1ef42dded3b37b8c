//! Unsigned integers of 8 bits under encryption, and the operations of the
//! engine on them. The functions marked `external_body` are assumptions about
//! `tfhe::FheUint8`; the rest of the library is proved from them. The engine
//! computes with the evaluation key that was installed last on the thread, so
//! every wrapper of an operation installs the key of its handle before it calls.

use crate::engine::{public_pair, serves, Evaluator};
use tfhe::{ClientKey, CompactPublicKey, FheUint8};
use tfhe::prelude::{FheDecrypt, FheEncrypt};
use vstd::prelude::*;

verus! {

/// A `tfhe::FheUint8`: an unsigned integer of 8 bits that only a client key
/// can read. The engine's type cannot be declared to the verifier, because the
/// bound on its parameter is private to `tfhe`, so the ciphertext is held in a
/// field that the verifier does not look into.
#[verifier::external_body]
pub struct Encrypted8 {
    pub(crate) ciphertext: FheUint8,
}

/// The number at which arithmetic on 8 bits wraps around.
pub open spec fn wrap8() -> int {
    0x100
}

/// `c` was made under `client`: by encryption under it or under its public key,
/// or by the evaluation key derived from it out of ciphertexts of which the same
/// holds.
pub uninterp spec fn sound8(c: Encrypted8, client: ClientKey) -> bool;

/// What `FheUint8::decrypt` returns for `c` under `client`.
pub uninterp spec fn decrypted8(c: Encrypted8, client: ClientKey) -> u8;

/// The handle can compute on `c`: `c` was made under a client key that the
/// handle serves. The engine panics on a ciphertext that does not fit the
/// evaluation key, so every operation asks for this of what it is given, and
/// says it of what it gives back.
pub open spec fn fits8(ev: Evaluator, c: Encrypted8) -> bool {
    exists|k: ClientKey| serves(ev, k) && #[trigger] sound8(c, k)
}

/// `FheUint8::encrypt` under a client key: the ciphertext decrypts under that key
/// to `value`.
#[verifier::external_body]
fn encrypt8(value: u8, key: &ClientKey) -> (c: Encrypted8)
    ensures
        sound8(c, *key),
        decrypted8(c, *key) == value,
{
    Encrypted8 { ciphertext: FheUint8::encrypt(value, key) }
}

/// `FheUint8::encrypt` under a public key: the ciphertext decrypts to `value` under
/// the client key that the public key was derived from.
#[verifier::external_body]
fn encrypt8_public(value: u8, key: &CompactPublicKey) -> (c: Encrypted8)
    ensures
        forall|k: ClientKey|
            #![trigger sound8(c, k)]
            #![trigger decrypted8(c, k)]
            public_pair(k, *key) ==> sound8(c, k) && decrypted8(c, k) == value,
{
    Encrypted8 { ciphertext: FheUint8::encrypt(value, key) }
}

/// `FheUint8::decrypt`. The engine panics where ciphertext and key do not fit each
/// other, so the ciphertext has to be one made under the key.
#[verifier::external_body]
fn decrypt8(c: &Encrypted8, key: &ClientKey) -> (value: u8)
    requires
        sound8(*c, *key),
    ensures
        value == decrypted8(*c, *key),
{
    c.ciphertext.decrypt(key)
}

/// `FheUint8::clone`: a copy of the ciphertext.
#[verifier::external_body]
pub(crate) fn clone8(c: &Encrypted8) -> (r: Encrypted8)
    ensures
        r == *c,
{
    Encrypted8 { ciphertext: c.ciphertext.clone() }
}

/// `&FheUint8 + u8`: the value plus the clear number, wrapped to the width.
/// The key of the handle is installed first, with `tfhe::set_server_key`; the
/// engine panics on ciphertexts that do not fit the key.
#[verifier::external_body]
pub(crate) fn add8_scalar(ev: &Evaluator, a: &Encrypted8, s: u8) -> (r: Encrypted8)
    requires
        fits8(*ev, *a),
    ensures
        fits8(*ev, r),
        forall|k: ClientKey|
            #![trigger sound8(r, k)]
            #![trigger decrypted8(r, k)]
            serves(*ev, k) && sound8(*a, k) ==> sound8(r, k) && decrypted8(r, k)
                == (decrypted8(*a, k) + s) % wrap8(),
{
    tfhe::set_server_key(ev.key.clone());
    Encrypted8 { ciphertext: &a.ciphertext + s }
}

/// `&FheUint8 % u8`: the remainder of the value by the clear number. The engine
/// panics on a zero divisor.
/// The key of the handle is installed first, with `tfhe::set_server_key`; the
/// engine panics on ciphertexts that do not fit the key.
#[verifier::external_body]
pub(crate) fn rem8_scalar(ev: &Evaluator, a: &Encrypted8, s: u8) -> (r: Encrypted8)
    requires
        fits8(*ev, *a),
        s != 0,
    ensures
        fits8(*ev, r),
        forall|k: ClientKey|
            #![trigger sound8(r, k)]
            #![trigger decrypted8(r, k)]
            serves(*ev, k) && sound8(*a, k) ==> sound8(r, k) && decrypted8(r, k)
                == decrypted8(*a, k) % s,
{
    tfhe::set_server_key(ev.key.clone());
    Encrypted8 { ciphertext: &a.ciphertext % s }
}

impl Encrypted8 {
    /// Encrypts `value` under the client key.
    pub fn encrypt(value: u8, key: &ClientKey) -> (c: Encrypted8)
        ensures
            sound8(c, *key),
            decrypted8(c, *key) == value,
    {
        encrypt8(value, key)
    }

    /// Encrypts `value` under a public key, for the holder of the client key that
    /// it was derived from.
    pub fn encrypt_public(value: u8, key: &CompactPublicKey) -> (c: Encrypted8)
        ensures
            forall|k: ClientKey|
                #![trigger sound8(c, k)]
                #![trigger decrypted8(c, k)]
                public_pair(k, *key) ==> sound8(c, k) && decrypted8(c, k) == value,
    {
        encrypt8_public(value, key)
    }

    /// Decrypts with the client key that the ciphertext was made under.
    pub fn decrypt(&self, key: &ClientKey) -> (value: u8)
        requires
            sound8(*self, *key),
        ensures
            value == decrypted8(*self, *key),
    {
        decrypt8(self, key)
    }
}

} // verus!
