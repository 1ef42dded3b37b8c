//! The numbers of the scheme: one Schnorr group for each width, and the
//! shape of the permutation.

use vstd::prelude::*;

verus! {

/// Schnorr group with a 128-bit prime: the modulus.
pub const SCH_P_128: u128 = 248887481077937771352227813962501876493;

/// Schnorr group with a 128-bit prime: the generator.
pub const SCH_G_128: u128 = 119623129323905044429391025715657774932;

/// Schnorr group with a 128-bit prime: the order of the generator, a 64-bit prime.
pub const SCH_Q_64: u128 = 12223110294319142443;

/// Schnorr group with a 32-bit prime: the modulus.
pub const SCH_P_32: u32 = 3552575077;

/// Schnorr group with a 32-bit prime: the generator.
pub const SCH_G_32: u32 = 3196401078;

/// Schnorr group with a 32-bit prime: the order of the generator, a 16-bit prime.
pub const SCH_Q_16: u32 = 43607;

/// Schnorr group with a 16-bit prime: the modulus.
pub const SCH_P_16: u16 = 52813;

/// Schnorr group with a 16-bit prime: the generator.
pub const SCH_G_16: u16 = 46292;

/// Schnorr group with a 16-bit prime: the order of the generator, an 8-bit prime.
pub const SCH_Q_8: u16 = 163;

/// Schnorr group with an 8-bit prime: the modulus.
pub const SCH_P_8: u8 = 199;

/// Schnorr group with an 8-bit prime: the generator.
pub const SCH_G_8: u8 = 61;

/// Schnorr group with an 8-bit prime: the order of the generator, a 4-bit prime.
pub const SCH_Q_4: u8 = 11;

/// The permutation works modulo the prime of the Schnorr group.
pub const POSEIDON_P_128: u128 = SCH_P_128;

/// The permutation works modulo the prime of the Schnorr group.
pub const POSEIDON_P_32: u32 = SCH_P_32;

/// The permutation works modulo the prime of the Schnorr group.
pub const POSEIDON_P_8: u8 = SCH_P_8;

/// Exponent of the S-box.
pub const POSEIDON_ALPHA: u8 = 5;

/// Number of state elements.
pub const POSEIDON_T: usize = 4;

/// Number of full rounds.
pub const POSEIDON_R_FULL: usize = 8;

/// Number of partial rounds.
pub const POSEIDON_R_PARTIAL: usize = 56;

/// Width in bits of the prime that the signing pipeline runs on.
pub const P_BITWIDTH: usize = 8;

/// Modulus of the group that the signing pipeline runs on.
pub const SCH_P: u8 = SCH_P_8;

/// Generator of the group that the signing pipeline runs on.
pub const SCH_G: u8 = SCH_G_8;

/// Order of the generator of the group that the signing pipeline runs on.
pub const SCH_Q: u8 = SCH_Q_4;

/// Modulus of the permutation that the signing pipeline runs on.
pub const POSEIDON_P: u8 = SCH_P;

} // verus!
