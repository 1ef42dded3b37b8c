//! Unsigned integers of 128 bits under encryption, and the operations of the
//! engine on them. The functions marked `external_body` are assumptions about
//! `tfhe::FheUint128`; the rest of the library is proved from them. The engine
//! computes with the evaluation key that was installed last on the thread, so
//! every wrapper of an operation installs the key of its handle before it calls.

use crate::engine::{public_pair, serves, Evaluator};
use tfhe::{ClientKey, CompactPublicKey, FheUint128};
use tfhe::prelude::{FheDecrypt, FheEncrypt};
use vstd::prelude::*;

verus! {

/// A `tfhe::FheUint128`: an unsigned integer of 128 bits that only a client key
/// can read. The engine's type cannot be declared to the verifier, because the
/// bound on its parameter is private to `tfhe`, so the ciphertext is held in a
/// field that the verifier does not look into.
#[verifier::external_body]
pub struct Encrypted128 {
    pub(crate) ciphertext: FheUint128,
}

/// The number at which arithmetic on 128 bits wraps around.
pub open spec fn wrap128() -> int {
    u128::MAX + 1
}

/// `c` was made under `client`: by encryption under it or under its public key,
/// or by the evaluation key derived from it out of ciphertexts of which the same
/// holds.
pub uninterp spec fn sound128(c: Encrypted128, client: ClientKey) -> bool;

/// What `FheUint128::decrypt` returns for `c` under `client`.
pub uninterp spec fn decrypted128(c: Encrypted128, client: ClientKey) -> u128;

/// The handle can compute on `c`: `c` was made under a client key that the
/// handle serves. The engine panics on a ciphertext that does not fit the
/// evaluation key, so every operation asks for this of what it is given, and
/// says it of what it gives back.
pub open spec fn fits128(ev: Evaluator, c: Encrypted128) -> bool {
    exists|k: ClientKey| serves(ev, k) && #[trigger] sound128(c, k)
}

/// `FheUint128::encrypt` under a client key: the ciphertext decrypts under that key
/// to `value`.
#[verifier::external_body]
fn encrypt128(value: u128, key: &ClientKey) -> (c: Encrypted128)
    ensures
        sound128(c, *key),
        decrypted128(c, *key) == value,
{
    Encrypted128 { ciphertext: FheUint128::encrypt(value, key) }
}

/// `FheUint128::encrypt` under a public key: the ciphertext decrypts to `value` under
/// the client key that the public key was derived from.
#[verifier::external_body]
fn encrypt128_public(value: u128, key: &CompactPublicKey) -> (c: Encrypted128)
    ensures
        forall|k: ClientKey|
            #![trigger sound128(c, k)]
            #![trigger decrypted128(c, k)]
            public_pair(k, *key) ==> sound128(c, k) && decrypted128(c, k) == value,
{
    Encrypted128 { ciphertext: FheUint128::encrypt(value, key) }
}

/// `FheUint128::decrypt`. The engine panics where ciphertext and key do not fit each
/// other, so the ciphertext has to be one made under the key.
#[verifier::external_body]
fn decrypt128(c: &Encrypted128, key: &ClientKey) -> (value: u128)
    requires
        sound128(*c, *key),
    ensures
        value == decrypted128(*c, *key),
{
    c.ciphertext.decrypt(key)
}

/// `FheUint128::clone`: a copy of the ciphertext.
#[verifier::external_body]
pub(crate) fn clone128(c: &Encrypted128) -> (r: Encrypted128)
    ensures
        r == *c,
{
    Encrypted128 { ciphertext: c.ciphertext.clone() }
}

/// `&FheUint128 * &FheUint128`: the product of the two values, wrapped to the width.
/// The key of the handle is installed first, with `tfhe::set_server_key`; the
/// engine panics on ciphertexts that do not fit the key.
#[verifier::external_body]
pub(crate) fn mul128(ev: &Evaluator, a: &Encrypted128, b: &Encrypted128) -> (r: Encrypted128)
    requires
        fits128(*ev, *a),
        fits128(*ev, *b),
    ensures
        fits128(*ev, r),
        forall|k: ClientKey|
            #![trigger sound128(r, k)]
            #![trigger decrypted128(r, k)]
            serves(*ev, k) && sound128(*a, k) && sound128(*b, k) ==> sound128(r, k)
                && decrypted128(r, k) == (decrypted128(*a, k) * decrypted128(*b, k)) % wrap128(),
{
    tfhe::set_server_key(ev.key.clone());
    Encrypted128 { ciphertext: &a.ciphertext * &b.ciphertext }
}

impl Encrypted128 {
    /// Encrypts `value` under the client key.
    pub fn encrypt(value: u128, key: &ClientKey) -> (c: Encrypted128)
        ensures
            sound128(c, *key),
            decrypted128(c, *key) == value,
    {
        encrypt128(value, key)
    }

    /// Encrypts `value` under a public key, for the holder of the client key that
    /// it was derived from.
    pub fn encrypt_public(value: u128, key: &CompactPublicKey) -> (c: Encrypted128)
        ensures
            forall|k: ClientKey|
                #![trigger sound128(c, k)]
                #![trigger decrypted128(c, k)]
                public_pair(k, *key) ==> sound128(c, k) && decrypted128(c, k) == value,
    {
        encrypt128_public(value, key)
    }

    /// Decrypts with the client key that the ciphertext was made under.
    pub fn decrypt(&self, key: &ClientKey) -> (value: u128)
        requires
            sound128(*self, *key),
        ensures
            value == decrypted128(*self, *key),
    {
        decrypt128(self, key)
    }
}

} // verus!
