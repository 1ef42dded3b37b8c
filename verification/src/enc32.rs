//! Unsigned integers of 32 bits under encryption, and the operations of the
//! engine on them. The functions marked `external_body` are assumptions about
//! `tfhe::FheUint32`; the rest of the library is proved from them. The engine
//! computes with the evaluation key that was installed last on the thread, so
//! every wrapper of an operation installs the key of its handle before it calls.

use crate::engine::{public_pair, serves, Evaluator};
use tfhe::{ClientKey, CompactPublicKey, FheUint32};
use tfhe::prelude::{FheDecrypt, FheEncrypt};
use vstd::prelude::*;

verus! {

/// A `tfhe::FheUint32`: an unsigned integer of 32 bits that only a client key
/// can read. The engine's type cannot be declared to the verifier, because the
/// bound on its parameter is private to `tfhe`, so the ciphertext is held in a
/// field that the verifier does not look into.
#[verifier::external_body]
pub struct Encrypted32 {
    pub(crate) ciphertext: FheUint32,
}

/// The number at which arithmetic on 32 bits wraps around.
pub open spec fn wrap32() -> int {
    0x1_0000_0000
}

/// `c` was made under `client`: by encryption under it or under its public key,
/// or by the evaluation key derived from it out of ciphertexts of which the same
/// holds.
pub uninterp spec fn sound32(c: Encrypted32, client: ClientKey) -> bool;

/// What `FheUint32::decrypt` returns for `c` under `client`.
pub uninterp spec fn decrypted32(c: Encrypted32, client: ClientKey) -> u32;

/// The handle can compute on `c`: `c` was made under a client key that the
/// handle serves. The engine panics on a ciphertext that does not fit the
/// evaluation key, so every operation asks for this of what it is given, and
/// says it of what it gives back.
pub open spec fn fits32(ev: Evaluator, c: Encrypted32) -> bool {
    exists|k: ClientKey| serves(ev, k) && #[trigger] sound32(c, k)
}

/// `FheUint32::encrypt` under a client key: the ciphertext decrypts under that key
/// to `value`.
#[verifier::external_body]
fn encrypt32(value: u32, key: &ClientKey) -> (c: Encrypted32)
    ensures
        sound32(c, *key),
        decrypted32(c, *key) == value,
{
    Encrypted32 { ciphertext: FheUint32::encrypt(value, key) }
}

/// `FheUint32::encrypt` under a public key: the ciphertext decrypts to `value` under
/// the client key that the public key was derived from.
#[verifier::external_body]
fn encrypt32_public(value: u32, key: &CompactPublicKey) -> (c: Encrypted32)
    ensures
        forall|k: ClientKey|
            #![trigger sound32(c, k)]
            #![trigger decrypted32(c, k)]
            public_pair(k, *key) ==> sound32(c, k) && decrypted32(c, k) == value,
{
    Encrypted32 { ciphertext: FheUint32::encrypt(value, key) }
}

/// `FheUint32::decrypt`. The engine panics where ciphertext and key do not fit each
/// other, so the ciphertext has to be one made under the key.
#[verifier::external_body]
fn decrypt32(c: &Encrypted32, key: &ClientKey) -> (value: u32)
    requires
        sound32(*c, *key),
    ensures
        value == decrypted32(*c, *key),
{
    c.ciphertext.decrypt(key)
}

/// `FheUint32::clone`: a copy of the ciphertext.
#[verifier::external_body]
pub(crate) fn clone32(c: &Encrypted32) -> (r: Encrypted32)
    ensures
        r == *c,
{
    Encrypted32 { ciphertext: c.ciphertext.clone() }
}

/// `&FheUint32 * &FheUint32`: the product of the two values, wrapped to the width.
/// The key of the handle is installed first, with `tfhe::set_server_key`; the
/// engine panics on ciphertexts that do not fit the key.
#[verifier::external_body]
pub(crate) fn mul32(ev: &Evaluator, a: &Encrypted32, b: &Encrypted32) -> (r: Encrypted32)
    requires
        fits32(*ev, *a),
        fits32(*ev, *b),
    ensures
        fits32(*ev, r),
        forall|k: ClientKey|
            #![trigger sound32(r, k)]
            #![trigger decrypted32(r, k)]
            serves(*ev, k) && sound32(*a, k) && sound32(*b, k) ==> sound32(r, k)
                && decrypted32(r, k) == (decrypted32(*a, k) * decrypted32(*b, k)) % wrap32(),
{
    tfhe::set_server_key(ev.key.clone());
    Encrypted32 { ciphertext: &a.ciphertext * &b.ciphertext }
}

/// `&FheUint32 + u32`: the value plus the clear number, wrapped to the width.
/// The key of the handle is installed first, with `tfhe::set_server_key`; the
/// engine panics on ciphertexts that do not fit the key.
#[verifier::external_body]
pub(crate) fn add32_scalar(ev: &Evaluator, a: &Encrypted32, s: u32) -> (r: Encrypted32)
    requires
        fits32(*ev, *a),
    ensures
        fits32(*ev, r),
        forall|k: ClientKey|
            #![trigger sound32(r, k)]
            #![trigger decrypted32(r, k)]
            serves(*ev, k) && sound32(*a, k) ==> sound32(r, k) && decrypted32(r, k)
                == (decrypted32(*a, k) + s) % wrap32(),
{
    tfhe::set_server_key(ev.key.clone());
    Encrypted32 { ciphertext: &a.ciphertext + s }
}

/// `&FheUint32 % u32`: the remainder of the value by the clear number. The engine
/// panics on a zero divisor.
/// The key of the handle is installed first, with `tfhe::set_server_key`; the
/// engine panics on ciphertexts that do not fit the key.
#[verifier::external_body]
pub(crate) fn rem32_scalar(ev: &Evaluator, a: &Encrypted32, s: u32) -> (r: Encrypted32)
    requires
        fits32(*ev, *a),
        s != 0,
    ensures
        fits32(*ev, r),
        forall|k: ClientKey|
            #![trigger sound32(r, k)]
            #![trigger decrypted32(r, k)]
            serves(*ev, k) && sound32(*a, k) ==> sound32(r, k) && decrypted32(r, k)
                == decrypted32(*a, k) % s,
{
    tfhe::set_server_key(ev.key.clone());
    Encrypted32 { ciphertext: &a.ciphertext % s }
}

impl Encrypted32 {
    /// Encrypts `value` under the client key.
    pub fn encrypt(value: u32, key: &ClientKey) -> (c: Encrypted32)
        ensures
            sound32(c, *key),
            decrypted32(c, *key) == value,
    {
        encrypt32(value, key)
    }

    /// Encrypts `value` under a public key, for the holder of the client key that
    /// it was derived from.
    pub fn encrypt_public(value: u32, key: &CompactPublicKey) -> (c: Encrypted32)
        ensures
            forall|k: ClientKey|
                #![trigger sound32(c, k)]
                #![trigger decrypted32(c, k)]
                public_pair(k, *key) ==> sound32(c, k) && decrypted32(c, k) == value,
    {
        encrypt32_public(value, key)
    }

    /// Decrypts with the client key that the ciphertext was made under.
    pub fn decrypt(&self, key: &ClientKey) -> (value: u32)
        requires
            sound32(*self, *key),
        ensures
            value == decrypted32(*self, *key),
    {
        decrypt32(self, key)
    }
}

} // verus!
