//! The permutation modulo the 32-bit prime: inputs and hash are 32-bit integers,
//! the rounds run on 64-bit integers.

use crate::constants::{POSEIDON_ALPHA, POSEIDON_P_32, POSEIDON_R_FULL, POSEIDON_R_PARTIAL};
use crate::enc32::{decrypted32, fits32, rem32_scalar, sound32, Encrypted32};
use crate::enc64::{clone64, decrypted64, wrap64, Encrypted64};
use crate::engine::{serves, Evaluator};
use crate::modarith64::{narrow_64, widen_32};
use crate::modular::lift_safe;
use crate::poseidon_clear::{ints, poseidon_hash, PoseidonProfile};
use crate::poseidon_spec::{hash, reduce, Profile};
use crate::rounds64::{fits_all64, plain64, profile64, residue_state64, rounds_64};
use tfhe::ClientKey;
use vstd::prelude::*;

verus! {

/// Round constants for 8 full and 56 partial rounds, reduced modulo the prime.
/// They are kept in 64 bits because that is the width the rounds run at.
pub const T4_P32_RC: [u64; 256] = [
    3099850505, 3179516854, 307261169, 787761466, 2275476481, 2225275640,
    2994401083, 3413351842, 2856083989, 2347979165, 2081881791, 2708334814,
    1919447024, 1580658411, 2871370135, 3452225719, 1860524872, 2426372693,
    2773476711, 1197209734, 1683489867, 536884435, 166238553, 3181718636,
    1335754851, 2742560894, 678072798, 3344401184, 531448979, 1001901256,
    1883173011, 1232491573, 259628726, 3394417492, 1974200766, 757644604,
    3546461737, 2176114810, 598528939, 1401052157, 2196221925, 1658390909,
    2094386898, 1696412216, 2071415470, 1534493193, 1371199330, 568142009,
    2896067480, 3137296086, 2102493908, 3458122763, 897106465, 3395463776,
    1757891339, 207272094, 2727542899, 1736930361, 1721846043, 1424550870,
    1835690357, 2859484434, 1800016633, 201993284, 215683983, 1411790707,
    2147918544, 71092249, 2983489284, 913464423, 2296412015, 3018523490,
    1551338438, 1262172092, 2693140802, 2039628943, 2019583476, 1518118815,
    1998491344, 3186331764, 412356028, 2522393989, 2869212488, 3102263488,
    1452955401, 2759353107, 2799741381, 222765041, 132981644, 2319606456,
    1455666007, 990206873, 499274254, 809289575, 1904527150, 1372947389,
    3208968559, 557021055, 3122104659, 730749847, 599365029, 1285233766,
    879156767, 2005099873, 1344736228, 2701406876, 2559773611, 296254486,
    1891284223, 1545980222, 112686241, 2791853118, 1515763600, 473113348,
    1746712238, 519530258, 174960741, 769373706, 1963602836, 2377743748,
    2043614120, 1886976780, 2359555624, 1053199492, 1139113946, 1372518430,
    569518733, 3535258123, 1950261949, 587293426, 1075626675, 1938215399,
    1378065227, 905030635, 1180767793, 1696981789, 171311903, 895432029,
    1881472565, 339833772, 2561589514, 30114794, 780309098, 393527907,
    144799295, 1462574029, 229593533, 1402728584, 161037413, 2391424361,
    699658795, 350293920, 1414726217, 1378282701, 1496007019, 1146975674,
    1642696163, 166381769, 1061088641, 2026851337, 2141704497, 2372852189,
    815695497, 1950508239, 2043891635, 3037972619, 282226641, 1702473415,
    1948589137, 1363890715, 1131235035, 94658236, 73967154, 415132980,
    1112536758, 645817235, 611337531, 2339909382, 3444791587, 2608791387,
    1280462839, 2877726904, 166942416, 767180540, 167908829, 902782698,
    2554776308, 117719159, 2400243197, 1657096076, 1132143350, 2125011374,
    2058908206, 366438040, 1962981586, 2297542456, 1536130175, 661118100,
    2018119793, 2887242221, 1271009549, 3338989812, 2679736603, 460707428,
    32969198, 1192966470, 3471738875, 180576791, 278553931, 2146022848,
    776646969, 2388486999, 1113963847, 2118933805, 934022812, 1331742939,
    2936585764, 429246239, 192973457, 426973148, 976691946, 2051872635,
    717960115, 1491563885, 2651521991, 2663725801, 1947056952, 176032116,
    1827826784, 808072454, 230560935, 438803671, 1990241738, 544659575,
    1495519323, 484404301, 204474905, 787278736, 1283827532, 611165895,
    586166262, 3355599834, 3265570048, 2610811117, 363239904, 2066056234,
    1672142417, 2043248489, 1265189466, 271671167, 318641430, 700587625,
    185655075, 345033561, 1107847779, 1966660220,
];

/// The mixing matrix by rows, reduced modulo the prime.
pub const T4_P32_MDS_MATRIX: [[u64; 4]; 4] = [
    [2664431308, 1421030031, 2960479231, 1522532176],
    [1421030031, 2960479231, 1522532176, 1332215654],
    [2960479231, 1522532176, 1332215654, 3157844513],
    [1522532176, 1332215654, 3157844513, 2486802554],
];

/// Round constants for 2 full rounds and 1 partial round: a short permutation
/// that makes a run on encrypted integers quick to check, and protects
/// nothing.
pub const T4_P32_RC_R1_TEST: [u64; 12] = [
    110929376, 2029821953, 1891938406, 2833957075, 1439843622, 1042882281,
    3302117744, 1858984797, 1904202925, 2469559821, 974687881, 937552036,
];

/// The table of round constants that goes with a pair of round counts: the
/// short one for 2 full rounds and 1 partial round, the long one otherwise.
pub open spec fn table_p32(r_full: usize, r_partial: usize) -> Seq<u64> {
    if r_full == 2 && r_partial == 1 {
        T4_P32_RC_R1_TEST@
    } else {
        T4_P32_RC@
    }
}

/// The round counts that the permutation can run with: an even number of full
/// rounds, and as many rounds as the table has constants for.
pub open spec fn rounds_p32(r_full: usize, r_partial: usize) -> bool {
    r_full % 2 == 0 && table_p32(r_full, r_partial).len() == (r_full + r_partial) * 4
}

/// The profile of the permutation modulo the 32-bit prime.
pub open spec fn profile_p32(r_full: usize, r_partial: usize) -> Profile {
    profile64(
        POSEIDON_P_32 as u64,
        POSEIDON_ALPHA as u64,
        r_full,
        r_partial,
        table_p32(r_full, r_partial),
        T4_P32_MDS_MATRIX,
    )
}

/// The handle can compute on each of the four inputs.
pub open spec fn fits_inputs32(ev: Evaluator, inputs: Seq<&Encrypted32>) -> bool {
    forall|i: int| 0 <= i < inputs.len() ==> fits32(ev, *#[trigger] inputs[i])
}

/// Whether the four inputs are sound under the client key `k`.
pub open spec fn sound_inputs32(inputs: Seq<&Encrypted32>, k: ClientKey) -> bool {
    forall|i: int| 0 <= i < inputs.len() ==> sound32(*#[trigger] inputs[i], k)
}

/// The values of the four inputs under the client key `k`.
pub open spec fn plain_inputs32(inputs: Seq<&Encrypted32>, k: ClientKey) -> Seq<int> {
    Seq::new(inputs.len(), |i: int| decrypted32(*inputs[i], k) as int)
}

/// The four clear inputs as integers.
pub open spec fn clear_inputs32(inputs: [u32; 4]) -> Seq<int> {
    Seq::new(4, |i: int| inputs@[i] as int)
}

/// The tables are reduced modulo the prime, and 64 bits are wide enough for
/// it.
pub proof fn lemma_profile_p32(r_full: usize, r_partial: usize)
    requires
        rounds_p32(r_full, r_partial),
    ensures
        profile_p32(r_full, r_partial).wf(),
        lift_safe(POSEIDON_P_32 as int, wrap64()),
{
}

/// A copy of a table of round constants.
fn table_to_vec<const N: usize>(table: &[u64; N]) -> (v: Vec<u64>)
    ensures
        v@ == table@,
{
    let mut v: Vec<u64> = Vec::new();
    let mut i: usize = 0;
    while i < N
        invariant
            i <= N,
            v.len() == i,
            forall|j: int| 0 <= j < i ==> v[j] == table@[j],
        decreases N - i,
    {
        v.push(table[i]);
        i = i + 1;
    }
    v
}

/// Tests at run time whether the permutation can run with the round counts.
pub fn has_rounds_p32(r_full: usize, r_partial: usize) -> (ok: bool)
    ensures
        ok == rounds_p32(r_full, r_partial),
{
    if r_full == 2 && r_partial == 1 {
        true
    } else {
        r_full % 2 == 0 && r_full <= 64 && r_partial == 64 - r_full
    }
}

/// The round constants for the given round counts.
pub fn pick_round_constants_p32(r_full: usize, r_partial: usize) -> (constants: Vec<u64>)
    ensures
        constants@ == table_p32(r_full, r_partial),
{
    if r_full == 2 && r_partial == 1 {
        table_to_vec(&T4_P32_RC_R1_TEST)
    } else {
        table_to_vec(&T4_P32_RC)
    }
}

/// The tables of the 32-bit profile in the form that the clear evaluation
/// takes.
pub fn clear_profile_p32(r_full: usize, r_partial: usize) -> (profile: PoseidonProfile)
    requires
        rounds_p32(r_full, r_partial),
    ensures
        profile@ == profile_p32(r_full, r_partial),
        profile.wf(),
{
    let table = pick_round_constants_p32(r_full, r_partial);
    let mut round_constants: Vec<u64> = Vec::new();
    let mut i: usize = 0;
    while i < table.len()
        invariant
            i <= table.len(),
            round_constants.len() == i,
            forall|j: int| 0 <= j < i ==> round_constants[j] == table[j],
        decreases table.len() - i,
    {
        round_constants.push(table[i] as u64);
        i = i + 1;
    }
    let mut mds_matrix: Vec<Vec<u64>> = Vec::new();
    let mut r: usize = 0;
    while r < 4
        invariant
            r <= 4,
            mds_matrix.len() == r,
            forall|a: int|
                0 <= a < r ==> (#[trigger] mds_matrix[a]).len() == 4 && forall|b: int|
                    0 <= b < 4 ==> mds_matrix[a][b] == T4_P32_MDS_MATRIX@[a]@[b],
        decreases 4 - r,
    {
        let mut row: Vec<u64> = Vec::new();
        let mut c: usize = 0;
        while c < 4
            invariant
                r < 4,
                c <= 4,
                row.len() == c,
                forall|b: int| 0 <= b < c ==> row[b] == T4_P32_MDS_MATRIX@[r as int]@[b],
            decreases 4 - c,
        {
            row.push(T4_P32_MDS_MATRIX[r][c] as u64);
            c = c + 1;
        }
        mds_matrix.push(row);
        r = r + 1;
    }
    let profile = PoseidonProfile {
        prime: POSEIDON_P_32 as u64,
        alpha: POSEIDON_ALPHA as u64,
        r_full,
        r_partial,
        round_constants,
        mds_matrix,
    };
    proof {
        let want = profile_p32(r_full, r_partial);
        lemma_profile_p32(r_full, r_partial);
        assert(profile@.constants =~= want.constants);
        assert(profile@.matrix =~= want.matrix) by {
            assert forall|a: int| 0 <= a < 4 implies #[trigger] profile@.matrix[a]
                == want.matrix[a] by {
            }
        }
    }
    profile
}

/// The hash of four clear 32-bit inputs with the given round counts: element 1
/// of the permuted state.
pub fn poseidon_p32_clear_impl(inputs: [u32; 4], r_full: usize, r_partial: usize) -> (digest: u32)
    requires
        rounds_p32(r_full, r_partial),
    ensures
        digest == hash(profile_p32(r_full, r_partial), clear_inputs32(inputs)),
{
    let profile = clear_profile_p32(r_full, r_partial);
    let mut wide: Vec<u64> = Vec::new();
    let mut i: usize = 0;
    while i < 4
        invariant
            i <= 4,
            wide.len() == i,
            forall|j: int| 0 <= j < i ==> wide[j] == inputs@[j],
        decreases 4 - i,
    {
        wide.push(inputs[i] as u64);
        i = i + 1;
    }
    proof {
        assert(ints(wide@) =~= clear_inputs32(inputs));
    }
    let digest = poseidon_hash(&profile, &wide);
    digest as u32
}

/// The hash of four clear inputs with 8 full and 56 partial rounds.
pub fn poseidon_p32_clear(inputs: [u32; 4]) -> (digest: u32)
    ensures
        digest == hash(
            profile_p32(POSEIDON_R_FULL, POSEIDON_R_PARTIAL),
            clear_inputs32(inputs),
        ),
{
    poseidon_p32_clear_impl(inputs, POSEIDON_R_FULL, POSEIDON_R_PARTIAL)
}

/// The hash of four encrypted 32-bit inputs with the given round counts. The
/// inputs are reduced modulo the prime and moved into 64-bit containers; after
/// the rounds element 1 of the state is moved back. Under every client key
/// that the evaluation key serves the result holds what
/// [`poseidon_p32_clear_impl`] returns on the values of the inputs.
pub fn poseidon_p32(
    ev: &Evaluator,
    inputs: Vec<&Encrypted32>,
    r_full: usize,
    r_partial: usize,
) -> (digest: Encrypted32)
    requires
        rounds_p32(r_full, r_partial),
        inputs.len() == 4,
        fits_inputs32(*ev, inputs@),
    ensures
        fits32(*ev, digest),
        forall|k: ClientKey|
            #![trigger sound32(digest, k)]
            #![trigger decrypted32(digest, k)]
            serves(*ev, k) && sound_inputs32(inputs@, k) ==> sound32(digest, k) && decrypted32(
                digest,
                k,
            ) == hash(profile_p32(r_full, r_partial), plain_inputs32(inputs@, k)),
{
    let ghost pr: Profile = profile_p32(r_full, r_partial);
    let constants = pick_round_constants_p32(r_full, r_partial);
    let prime: u64 = POSEIDON_P_32 as u64;
    proof {
        lemma_profile_p32(r_full, r_partial);
    }
    let mut state: Vec<Encrypted64> = Vec::new();
    let mut j: usize = 0;
    while j < 4
        invariant
            fits_inputs32(*ev, inputs@),
            fits_all64(*ev, state@),
            j <= 4,
            inputs.len() == 4,
            state.len() == j,
            forall|k: ClientKey|
                #![trigger residue_state64(state@, k, POSEIDON_P_32 as int)]
                serves(*ev, k) && sound_inputs32(inputs@, k) ==> residue_state64(state@, k, POSEIDON_P_32 as int)
                    && forall|i: int|
                    0 <= i < j ==> decrypted64(#[trigger] state[i], k) == decrypted32(
                        *inputs@[i],
                        k,
                    ) % POSEIDON_P_32,
        decreases 4 - j,
    {
        let reduced = rem32_scalar(ev, inputs[j], POSEIDON_P_32);
        let wide = widen_32(ev, reduced);
        let ghost earlier = state@;
        state.push(wide);
        proof {
            assert forall|k: ClientKey|
                serves(*ev, k) && sound_inputs32(inputs@, k) implies residue_state64(state@, k, POSEIDON_P_32 as int)
                && forall|i: int|
                0 <= i < j + 1 ==> decrypted64(#[trigger] state[i], k) == decrypted32(
                    *inputs@[i],
                    k,
                ) % POSEIDON_P_32 by {
                assert(residue_state64(earlier, k, POSEIDON_P_32 as int));
            }
        }
        j = j + 1;
    }
    let ghost start = state@;
    let last = rounds_64(
        ev,
        state,
        &constants,
        &T4_P32_MDS_MATRIX,
        prime,
        POSEIDON_ALPHA as u64,
        r_full,
        r_partial,
    );
    let second = clone64(&last[1]);
    let digest = narrow_64(ev, second);
    proof {
        assert forall|k: ClientKey| serves(*ev, k) && sound_inputs32(inputs@, k) implies sound32(
            digest,
            k,
        ) && decrypted32(digest, k) == hash(pr, plain_inputs32(inputs@, k)) by {
            assert(residue_state64(start, k, POSEIDON_P_32 as int));
            assert(plain64(start, k) =~= reduce(plain_inputs32(inputs@, k), POSEIDON_P_32 as int));
            assert(residue_state64(last@, k, POSEIDON_P_32 as int));
        }
    }
    digest
}

/// The two evaluations agree: where the encrypted inputs hold the clear
/// inputs, the value that [`poseidon_p32`] is proved to give under
/// encryption is the value that [`poseidon_p32_clear_impl`] is proved to
/// return.
pub proof fn lemma_modes_agree_p32(
    inputs: Seq<&Encrypted32>,
    clear: [u32; 4],
    k: ClientKey,
    r_full: usize,
    r_partial: usize,
)
    requires
        inputs.len() == 4,
        forall|i: int| 0 <= i < 4 ==> decrypted32(*inputs[i], k) == clear@[i],
    ensures
        hash(profile_p32(r_full, r_partial), plain_inputs32(inputs, k)) == hash(
            profile_p32(r_full, r_partial),
            clear_inputs32(clear),
        ),
{
    assert(plain_inputs32(inputs, k) =~= clear_inputs32(clear));
}

} // verus!
