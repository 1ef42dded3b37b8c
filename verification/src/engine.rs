//! The boundary to the encryption engine: its key types, the handle that
//! holds the evaluation key to compute with, and the vocabulary in which the
//! contracts of the encrypted-integer types speak.
//!
//! What the functions marked `external_body` state here, and in the files of
//! the encrypted integers, is assumed of the `tfhe` crate and not proved. It is
//! stated in the terms of the crate's documentation: a ciphertext made under a
//! client key, or computed from such ciphertexts with the evaluation key
//! derived from that client key, decrypts under it to the value that the same
//! operation gives on the clear integers. The engine keeps that promise up to
//! the failure probability that its parameters are chosen for; the contracts
//! leave that probability out.

use tfhe::{ClientKey, CompactPublicKey, ConfigBuilder, FheBool, ServerKey};
use tfhe::prelude::FheDecrypt;
use vstd::prelude::*;

verus! {

/// `tfhe::ClientKey`, the secret key that encrypts and decrypts.
#[verifier::external_type_specification]
#[verifier::external_body]
pub struct ExClientKey(ClientKey);

/// `tfhe::ServerKey`, the evaluation key that computes on ciphertexts.
#[verifier::external_type_specification]
#[verifier::external_body]
pub struct ExServerKey(ServerKey);

/// `tfhe::CompactPublicKey`, which encrypts without the secret key.
#[verifier::external_type_specification]
#[verifier::external_body]
pub struct ExCompactPublicKey(CompactPublicKey);

/// `tfhe::FheBool`, an encrypted truth value.
#[verifier::external_type_specification]
#[verifier::external_body]
pub struct ExFheBool(FheBool);

/// Holds an evaluation key. The engine computes with whatever key was installed
/// last on the calling thread, and panics where none was. So every operation of
/// the library takes a handle and installs its key before it calls the engine:
/// what it computes with is the key of the handle, whatever was installed
/// before, by this library or by anyone else.
pub struct Evaluator {
    pub(crate) key: ServerKey,
}

/// The evaluation key `server` was derived from the client key `client`
/// (by `tfhe::generate_keys` or `ClientKey::generate_server_key`). An
/// evaluation key is derived from one client key and from no other.
pub uninterp spec fn key_pair(client: ClientKey, server: ServerKey) -> bool;

/// The public key `public` was derived from the client key `client`
/// (by `CompactPublicKey::new`).
pub uninterp spec fn public_pair(client: ClientKey, public: CompactPublicKey) -> bool;

/// The evaluation key behind `ev` was derived from the client key `client`.
pub open spec fn serves(ev: Evaluator, client: ClientKey) -> bool {
    key_pair(client, ev.server_key())
}

/// The public key belongs to a client key that the handle serves, so that the
/// handle can compute on what is encrypted under it.
pub open spec fn fits_public(ev: Evaluator, public: CompactPublicKey) -> bool {
    exists|k: ClientKey| serves(ev, k) && #[trigger] public_pair(k, public)
}

/// `b` was made under `client`: by encryption under it, or by the evaluation key
/// derived from it out of ciphertexts of which the same holds.
pub uninterp spec fn sound_bool(b: FheBool, client: ClientKey) -> bool;

/// What `FheBool::decrypt` returns for `b` under `client`.
pub uninterp spec fn decrypted_bool(b: FheBool, client: ClientKey) -> bool;

/// The handle can compute on `b`: `b` was made under a client key that the
/// handle serves.
pub open spec fn fits_bool(ev: Evaluator, b: FheBool) -> bool {
    exists|k: ClientKey| serves(ev, k) && #[trigger] sound_bool(b, k)
}

/// Generates the client key, the evaluation key and the public key of one
/// party (`tfhe::generate_keys` with the default configuration, then
/// `CompactPublicKey::new`). The keys are drawn at random; whatever is drawn,
/// the three belong together.
#[verifier::external_body]
pub fn init_keys() -> (keys: (ClientKey, ServerKey, CompactPublicKey))
    ensures
        key_pair(keys.0, keys.1),
        public_pair(keys.0, keys.2),
{
    let config = ConfigBuilder::default().build();
    let (client_key, server_key) = tfhe::generate_keys(config);
    let public_key = CompactPublicKey::new(&client_key);
    (client_key, server_key, public_key)
}

/// `FheBool::decrypt`. The engine panics where ciphertext and key do not fit
/// each other, so the ciphertext has to be one made under the key.
#[verifier::external_body]
fn decrypt_bool(b: &FheBool, key: &ClientKey) -> (r: bool)
    requires
        sound_bool(*b, *key),
    ensures
        r == decrypted_bool(*b, *key),
{
    b.decrypt(key)
}

impl Evaluator {
    /// The evaluation key that the handle holds.
    pub closed spec fn server_key(&self) -> ServerKey {
        self.key
    }

    /// A handle for `server_key`. It serves every client key that `server_key`
    /// was derived from.
    pub fn new(server_key: ServerKey) -> (ev: Evaluator)
        ensures
            ev.server_key() == server_key,
            forall|k: ClientKey| key_pair(k, server_key) ==> #[trigger] serves(ev, k),
    {
        Evaluator { key: server_key }
    }
}

/// Decrypts an encrypted truth value with the client key that it was made
/// under.
pub fn reveal_bool(b: &FheBool, key: &ClientKey) -> (r: bool)
    requires
        sound_bool(*b, *key),
    ensures
        r == decrypted_bool(*b, *key),
{
    decrypt_bool(b, key)
}

} // verus!
