//! Schnorr signatures whose signing half runs on encrypted integers: the
//! secret key, the nonce and the commitment never leave their ciphertexts, and
//! only the two numbers of the signature are decrypted. Verification is done on
//! clear integers.
//!
//! The layers, from the bottom:
//! - `engine` and `enc8` to `enc128` are the boundary to the encryption engine.
//!   What they state of it is assumed; everything above is proved from it.
//! - `modular` holds the arithmetic facts, `modarith16` and `modarith64` the
//!   modular sums and products on encrypted integers in a container twice as
//!   wide as the modulus.
//! - `utils` holds the exponentiations: with a clear exponent, and with an
//!   encrypted one, where nothing that is done depends on the exponent.
//! - `poseidon_spec` defines the permutation; `poseidon_clear` evaluates it on
//!   clear integers, `rounds16` and `rounds64` on encrypted ones; `poseidon_p8`
//!   and `poseidon` hold the tables of the two profiles.
//! - `groups` proves of each group of `constants` that the powers of its
//!   generator come back to one after as many steps as its order says.
//! - `schnorr` defines the scheme and proves that it accepts its own
//!   signatures; `schnorr_p8` and `schnorr_p32` sign under encryption;
//!   `tamper` proves what is certain of a tampered signature.

pub mod bigint;
pub mod constants;
pub mod enc128;
pub mod enc16;
pub mod enc32;
pub mod enc64;
pub mod enc8;
pub mod engine;
pub mod groups;
pub mod modarith16;
pub mod modarith64;
pub mod modular;
pub mod poseidon;
pub mod poseidon_clear;
pub mod poseidon_p8;
pub mod poseidon_spec;
pub mod rounds16;
pub mod rounds64;
pub mod schnorr;
pub mod schnorr_p32;
pub mod schnorr_p8;
pub mod tamper;
pub mod utils;
