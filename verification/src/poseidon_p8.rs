//! The permutation modulo the 8-bit prime: inputs and hash are 8-bit integers,
//! the rounds run on 16-bit integers.

use crate::constants::{POSEIDON_ALPHA, POSEIDON_P_8, POSEIDON_R_FULL, POSEIDON_R_PARTIAL};
use crate::enc16::{clone16, decrypted16, wrap16, Encrypted16};
use crate::enc8::{decrypted8, fits8, rem8_scalar, sound8, Encrypted8};
use crate::engine::{serves, Evaluator};
use crate::modarith16::{narrow_16, widen_8};
use crate::modular::lift_safe;
use crate::poseidon_clear::{ints, poseidon_hash, PoseidonProfile};
use crate::poseidon_spec::{hash, reduce, Profile};
use crate::rounds16::{fits_all16, plain16, profile16, residue_state16, rounds_16};
use tfhe::ClientKey;
use vstd::prelude::*;

verus! {

/// Round constants for 8 full and 56 partial rounds, reduced modulo the prime.
/// They are kept in 16 bits because that is the width the rounds run at.
pub const T4_P8_RC: [u16; 256] = [
    36, 84, 41, 31, 185, 109, 188, 195, 100, 80, 90, 98, 173, 121, 112, 131,
    42, 53, 86, 188, 52, 152, 25, 41, 42, 46, 176, 27, 184, 65, 181, 132,
    136, 4, 93, 46, 10, 187, 179, 6, 99, 0, 167, 149, 26, 84, 31, 169,
    155, 30, 166, 3, 39, 173, 137, 178, 170, 149, 179, 61, 122, 123, 129, 16,
    144, 37, 97, 94, 168, 37, 186, 146, 85, 50, 187, 4, 124, 44, 75, 127,
    76, 68, 53, 135, 10, 36, 46, 50, 139, 135, 80, 33, 44, 92, 114, 53,
    69, 169, 117, 95, 45, 51, 40, 129, 54, 161, 150, 176, 155, 85, 76, 57,
    120, 172, 133, 44, 104, 40, 172, 41, 118, 99, 99, 128, 0, 102, 63, 79,
    11, 140, 145, 24, 119, 113, 118, 119, 167, 62, 165, 133, 132, 26, 116, 188,
    62, 66, 186, 30, 33, 108, 74, 84, 19, 174, 158, 67, 188, 119, 94, 151,
    112, 126, 41, 58, 184, 184, 97, 140, 6, 123, 112, 168, 15, 14, 168, 30,
    10, 151, 29, 189, 81, 171, 31, 198, 193, 17, 99, 195, 178, 157, 171, 167,
    156, 2, 140, 0, 19, 150, 58, 86, 89, 191, 124, 60, 149, 147, 144, 159,
    89, 82, 179, 190, 75, 111, 141, 4, 143, 170, 16, 57, 52, 101, 106, 58,
    134, 102, 165, 37, 60, 190, 97, 109, 138, 147, 16, 96, 38, 48, 144, 117,
    159, 150, 112, 103, 37, 48, 176, 116, 64, 0, 164, 60, 1, 51, 48, 160,
];

/// The mixing matrix by rows, reduced modulo the prime.
pub const T4_P8_MDS_MATRIX: [[u16; 4]; 4] = [
    [50, 40, 166, 57],
    [40, 166, 57, 25],
    [166, 57, 25, 177],
    [57, 25, 177, 20],
];

/// Round constants for 2 full rounds and 1 partial round: a short permutation
/// that makes a run on encrypted integers quick to check, and protects
/// nothing.
pub const T4_P8_RC_R1_TEST: [u16; 12] = [99, 97, 197, 119, 124, 43, 21, 146, 191, 195, 82, 71];

/// The table of round constants that goes with a pair of round counts: the
/// short one for 2 full rounds and 1 partial round, the long one otherwise.
pub open spec fn table_p8(r_full: usize, r_partial: usize) -> Seq<u16> {
    if r_full == 2 && r_partial == 1 {
        T4_P8_RC_R1_TEST@
    } else {
        T4_P8_RC@
    }
}

/// The round counts that the permutation can run with: an even number of full
/// rounds, and as many rounds as the table has constants for.
pub open spec fn rounds_p8(r_full: usize, r_partial: usize) -> bool {
    r_full % 2 == 0 && table_p8(r_full, r_partial).len() == (r_full + r_partial) * 4
}

/// The profile of the permutation modulo the 8-bit prime.
pub open spec fn profile_p8(r_full: usize, r_partial: usize) -> Profile {
    profile16(
        POSEIDON_P_8 as u16,
        POSEIDON_ALPHA as u16,
        r_full,
        r_partial,
        table_p8(r_full, r_partial),
        T4_P8_MDS_MATRIX,
    )
}

/// The handle can compute on each of the four inputs.
pub open spec fn fits_inputs8(ev: Evaluator, inputs: [&Encrypted8; 4]) -> bool {
    forall|i: int| 0 <= i < 4 ==> fits8(ev, *#[trigger] inputs@[i])
}

/// Whether the four inputs are sound under the client key `k`.
pub open spec fn sound_inputs8(inputs: [&Encrypted8; 4], k: ClientKey) -> bool {
    forall|i: int| 0 <= i < 4 ==> sound8(*#[trigger] inputs@[i], k)
}

/// The values of the four inputs under the client key `k`.
pub open spec fn plain_inputs8(inputs: [&Encrypted8; 4], k: ClientKey) -> Seq<int> {
    Seq::new(4, |i: int| decrypted8(*inputs@[i], k) as int)
}

/// The four clear inputs as integers.
pub open spec fn clear_inputs8(inputs: [u8; 4]) -> Seq<int> {
    Seq::new(4, |i: int| inputs@[i] as int)
}

/// The tables are reduced modulo the prime, and 16 bits are wide enough for
/// it.
pub proof fn lemma_profile_p8(r_full: usize, r_partial: usize)
    requires
        rounds_p8(r_full, r_partial),
    ensures
        profile_p8(r_full, r_partial).wf(),
        lift_safe(POSEIDON_P_8 as int, wrap16()),
{
}

/// A copy of a table of round constants.
fn table_to_vec<const N: usize>(table: &[u16; N]) -> (v: Vec<u16>)
    ensures
        v@ == table@,
{
    let mut v: Vec<u16> = Vec::new();
    let mut i: usize = 0;
    while i < N
        invariant
            i <= N,
            v.len() == i,
            forall|j: int| 0 <= j < i ==> v[j] == table@[j],
        decreases N - i,
    {
        v.push(table[i]);
        i = i + 1;
    }
    v
}

/// Tests at run time whether the permutation can run with the round counts.
pub fn has_rounds_p8(r_full: usize, r_partial: usize) -> (ok: bool)
    ensures
        ok == rounds_p8(r_full, r_partial),
{
    if r_full == 2 && r_partial == 1 {
        true
    } else {
        r_full % 2 == 0 && r_full <= 64 && r_partial == 64 - r_full
    }
}

/// The round constants for the given round counts.
pub fn pick_round_constants_p8(r_full: usize, r_partial: usize) -> (constants: Vec<u16>)
    ensures
        constants@ == table_p8(r_full, r_partial),
{
    if r_full == 2 && r_partial == 1 {
        table_to_vec(&T4_P8_RC_R1_TEST)
    } else {
        table_to_vec(&T4_P8_RC)
    }
}

/// The tables of the 8-bit profile in the form that the clear evaluation
/// takes.
pub fn clear_profile_p8(r_full: usize, r_partial: usize) -> (profile: PoseidonProfile)
    requires
        rounds_p8(r_full, r_partial),
    ensures
        profile@ == profile_p8(r_full, r_partial),
        profile.wf(),
{
    let table = pick_round_constants_p8(r_full, r_partial);
    let mut round_constants: Vec<u64> = Vec::new();
    let mut i: usize = 0;
    while i < table.len()
        invariant
            i <= table.len(),
            round_constants.len() == i,
            forall|j: int| 0 <= j < i ==> round_constants[j] == table[j],
        decreases table.len() - i,
    {
        round_constants.push(table[i] as u64);
        i = i + 1;
    }
    let mut mds_matrix: Vec<Vec<u64>> = Vec::new();
    let mut r: usize = 0;
    while r < 4
        invariant
            r <= 4,
            mds_matrix.len() == r,
            forall|a: int|
                0 <= a < r ==> (#[trigger] mds_matrix[a]).len() == 4 && forall|b: int|
                    0 <= b < 4 ==> mds_matrix[a][b] == T4_P8_MDS_MATRIX@[a]@[b],
        decreases 4 - r,
    {
        let mut row: Vec<u64> = Vec::new();
        let mut c: usize = 0;
        while c < 4
            invariant
                r < 4,
                c <= 4,
                row.len() == c,
                forall|b: int| 0 <= b < c ==> row[b] == T4_P8_MDS_MATRIX@[r as int]@[b],
            decreases 4 - c,
        {
            row.push(T4_P8_MDS_MATRIX[r][c] as u64);
            c = c + 1;
        }
        mds_matrix.push(row);
        r = r + 1;
    }
    let profile = PoseidonProfile {
        prime: POSEIDON_P_8 as u64,
        alpha: POSEIDON_ALPHA as u64,
        r_full,
        r_partial,
        round_constants,
        mds_matrix,
    };
    proof {
        let want = profile_p8(r_full, r_partial);
        lemma_profile_p8(r_full, r_partial);
        assert(profile@.constants =~= want.constants);
        assert(profile@.matrix =~= want.matrix) by {
            assert forall|a: int| 0 <= a < 4 implies #[trigger] profile@.matrix[a]
                == want.matrix[a] by {
            }
        }
    }
    profile
}

/// The hash of four clear 8-bit inputs with the given round counts: element 1
/// of the permuted state.
pub fn poseidon_p8_clear_impl(inputs: [u8; 4], r_full: usize, r_partial: usize) -> (digest: u8)
    requires
        rounds_p8(r_full, r_partial),
    ensures
        digest == hash(profile_p8(r_full, r_partial), clear_inputs8(inputs)),
{
    let profile = clear_profile_p8(r_full, r_partial);
    let mut wide: Vec<u64> = Vec::new();
    let mut i: usize = 0;
    while i < 4
        invariant
            i <= 4,
            wide.len() == i,
            forall|j: int| 0 <= j < i ==> wide[j] == inputs@[j],
        decreases 4 - i,
    {
        wide.push(inputs[i] as u64);
        i = i + 1;
    }
    proof {
        assert(ints(wide@) =~= clear_inputs8(inputs));
    }
    let digest = poseidon_hash(&profile, &wide);
    digest as u8
}

/// The hash of four clear inputs with 2 full rounds and 1 partial round.
pub fn poseidon_p8_clear_rf2_rp1(inputs: [u8; 4]) -> (digest: u8)
    ensures
        digest == hash(profile_p8(2, 1), clear_inputs8(inputs)),
{
    poseidon_p8_clear_impl(inputs, 2, 1)
}

/// The hash of four clear inputs with 8 full and 56 partial rounds.
pub fn poseidon_p8_clear(inputs: [u8; 4]) -> (digest: u8)
    ensures
        digest == hash(
            profile_p8(POSEIDON_R_FULL, POSEIDON_R_PARTIAL),
            clear_inputs8(inputs),
        ),
{
    poseidon_p8_clear_impl(inputs, POSEIDON_R_FULL, POSEIDON_R_PARTIAL)
}

/// The hash of four encrypted 8-bit inputs with the given round counts. The
/// inputs are reduced modulo the prime and moved into 16-bit containers; after
/// the rounds element 1 of the state is moved back. Under every client key
/// that the evaluation key serves the result holds what
/// [`poseidon_p8_clear_impl`] returns on the values of the inputs.
pub fn poseidon_p8_impl(
    ev: &Evaluator,
    inputs: [&Encrypted8; 4],
    r_full: usize,
    r_partial: usize,
) -> (digest: Encrypted8)
    requires
        rounds_p8(r_full, r_partial),
        fits_inputs8(*ev, inputs),
    ensures
        fits8(*ev, digest),
        forall|k: ClientKey|
            #![trigger sound8(digest, k)]
            #![trigger decrypted8(digest, k)]
            serves(*ev, k) && sound_inputs8(inputs, k) ==> sound8(digest, k) && decrypted8(
                digest,
                k,
            ) == hash(profile_p8(r_full, r_partial), plain_inputs8(inputs, k)),
{
    let ghost pr: Profile = profile_p8(r_full, r_partial);
    let constants = pick_round_constants_p8(r_full, r_partial);
    let prime: u16 = POSEIDON_P_8 as u16;
    proof {
        lemma_profile_p8(r_full, r_partial);
    }
    let mut state: Vec<Encrypted16> = Vec::new();
    let mut j: usize = 0;
    while j < 4
        invariant
            fits_inputs8(*ev, inputs),
            fits_all16(*ev, state@),
            j <= 4,
            state.len() == j,
            forall|k: ClientKey|
                #![trigger residue_state16(state@, k, POSEIDON_P_8 as int)]
                serves(*ev, k) && sound_inputs8(inputs, k) ==> residue_state16(state@, k, POSEIDON_P_8 as int)
                    && forall|i: int|
                    0 <= i < j ==> decrypted16(#[trigger] state[i], k) == decrypted8(
                        *inputs@[i],
                        k,
                    ) % POSEIDON_P_8,
        decreases 4 - j,
    {
        let reduced = rem8_scalar(ev, inputs[j], POSEIDON_P_8);
        let wide = widen_8(ev, reduced);
        let ghost earlier = state@;
        state.push(wide);
        proof {
            assert forall|k: ClientKey|
                serves(*ev, k) && sound_inputs8(inputs, k) implies residue_state16(state@, k, POSEIDON_P_8 as int)
                && forall|i: int|
                0 <= i < j + 1 ==> decrypted16(#[trigger] state[i], k) == decrypted8(
                    *inputs@[i],
                    k,
                ) % POSEIDON_P_8 by {
                assert(residue_state16(earlier, k, POSEIDON_P_8 as int));
            }
        }
        j = j + 1;
    }
    let ghost start = state@;
    let last = rounds_16(
        ev,
        state,
        &constants,
        &T4_P8_MDS_MATRIX,
        prime,
        POSEIDON_ALPHA as u16,
        r_full,
        r_partial,
    );
    let second = clone16(&last[1]);
    let digest = narrow_16(ev, second);
    proof {
        assert forall|k: ClientKey| serves(*ev, k) && sound_inputs8(inputs, k) implies sound8(
            digest,
            k,
        ) && decrypted8(digest, k) == hash(pr, plain_inputs8(inputs, k)) by {
            assert(residue_state16(start, k, POSEIDON_P_8 as int));
            assert(plain16(start, k) =~= reduce(plain_inputs8(inputs, k), POSEIDON_P_8 as int));
            assert(residue_state16(last@, k, POSEIDON_P_8 as int));
        }
    }
    digest
}

/// The hash of four encrypted inputs with 2 full rounds and 1 partial round.
pub fn poseidon_p8_rf2_rp1(ev: &Evaluator, inputs: [&Encrypted8; 4]) -> (digest: Encrypted8)
    requires
        fits_inputs8(*ev, inputs),
    ensures
        fits8(*ev, digest),
        forall|k: ClientKey|
            #![trigger sound8(digest, k)]
            #![trigger decrypted8(digest, k)]
            serves(*ev, k) && sound_inputs8(inputs, k) ==> sound8(digest, k) && decrypted8(
                digest,
                k,
            ) == hash(profile_p8(2, 1), plain_inputs8(inputs, k)),
{
    poseidon_p8_impl(ev, inputs, 2, 1)
}

/// The hash of four encrypted inputs with 8 full and 56 partial rounds.
pub fn poseidon_p8(ev: &Evaluator, inputs: [&Encrypted8; 4]) -> (digest: Encrypted8)
    requires
        fits_inputs8(*ev, inputs),
    ensures
        fits8(*ev, digest),
        forall|k: ClientKey|
            #![trigger sound8(digest, k)]
            #![trigger decrypted8(digest, k)]
            serves(*ev, k) && sound_inputs8(inputs, k) ==> sound8(digest, k) && decrypted8(
                digest,
                k,
            ) == hash(
                profile_p8(POSEIDON_R_FULL, POSEIDON_R_PARTIAL),
                plain_inputs8(inputs, k),
            ),
{
    poseidon_p8_impl(ev, inputs, POSEIDON_R_FULL, POSEIDON_R_PARTIAL)
}

/// The two evaluations agree: where the encrypted inputs hold the clear
/// inputs, the value that [`poseidon_p8_impl`] is proved to give under
/// encryption is the value that [`poseidon_p8_clear_impl`] is proved to
/// return.
pub proof fn lemma_modes_agree_p8(
    inputs: [&Encrypted8; 4],
    clear: [u8; 4],
    k: ClientKey,
    r_full: usize,
    r_partial: usize,
)
    requires
        forall|i: int| 0 <= i < 4 ==> decrypted8(*inputs@[i], k) == clear@[i],
    ensures
        hash(profile_p8(r_full, r_partial), plain_inputs8(inputs, k)) == hash(
            profile_p8(r_full, r_partial),
            clear_inputs8(clear),
        ),
{
    assert(plain_inputs8(inputs, k) =~= clear_inputs8(clear));
}

} // verus!
