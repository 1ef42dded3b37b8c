//! The four sets of numbers that the scheme is run on, and the proof of what
//! its correctness needs of each: the power of the generator to the order is
//! one, and the order divides the number of residues other than zero. Each
//! proof squares the generator up to the highest bit of the order and
//! multiplies the powers for the bits of the order together.

use crate::constants::{
    SCH_G_128, SCH_G_16, SCH_G_32, SCH_G_8, SCH_P_128, SCH_P_16, SCH_P_32, SCH_P_8, SCH_Q_16,
    SCH_Q_4, SCH_Q_64, SCH_Q_8,
};
use crate::modular::{lemma_pow_mod_adds, pow_mod};
use vstd::arithmetic::power::lemma_pow1;
use vstd::prelude::*;

verus! {

/// The powers of `g` modulo `p` come back to one after `q` steps: `g` is a
/// residue other than zero, `g^q` is one modulo `p`, and `q` divides `p - 1`.
/// The correctness of the scheme needs this and no more. It is less than a
/// group of prime order: that `p` and `q` are prime, and so that `q` is the
/// exact order of `g`, is what the security of the scheme rests on, and is not
/// part of it. The generator one passes.
pub open spec fn is_cycle(p: int, g: int, q: int) -> bool {
    &&& p > 1
    &&& 0 < g < p
    &&& q > 1
    &&& pow_mod(g, q as nat, p) == 1
    &&& (p - 1) % q == 0
}

/// The numbers with the 8-bit prime: the powers of the generator come back
/// to one after as many steps as the order says.
pub proof fn lemma_cycle_8()
    ensures
        is_cycle(SCH_P_8 as int, SCH_G_8 as int, SCH_Q_4 as int),
{
    let g: int = 61;
    let p: int = 199;
    lemma_pow1(g);
    assert(pow_mod(g, 1, p) == 61);
    lemma_pow_mod_adds(g, 1, 1, p);
    assert(pow_mod(g, 2, p) == 139);
    lemma_pow_mod_adds(g, 2, 2, p);
    assert(pow_mod(g, 4, p) == 18);
    lemma_pow_mod_adds(g, 4, 4, p);
    assert(pow_mod(g, 8, p) == 125);
    lemma_pow_mod_adds(g, 8, 2, p);
    assert(pow_mod(g, 10, p) == 62);
    lemma_pow_mod_adds(g, 10, 1, p);
    assert(pow_mod(g, 11, p) == 1);
}

/// The numbers with the 16-bit prime: the powers of the generator come back
/// to one after as many steps as the order says.
pub proof fn lemma_cycle_16()
    ensures
        is_cycle(SCH_P_16 as int, SCH_G_16 as int, SCH_Q_8 as int),
{
    let g: int = 46292;
    let p: int = 52813;
    lemma_pow1(g);
    assert(pow_mod(g, 1, p) == 46292);
    lemma_pow_mod_adds(g, 1, 1, p);
    assert(pow_mod(g, 2, p) == 8976);
    lemma_pow_mod_adds(g, 2, 2, p);
    assert(pow_mod(g, 4, p) == 28751);
    lemma_pow_mod_adds(g, 4, 4, p);
    assert(pow_mod(g, 8, p) == 43738);
    lemma_pow_mod_adds(g, 8, 8, p);
    assert(pow_mod(g, 16, p) == 20158);
    lemma_pow_mod_adds(g, 16, 16, p);
    assert(pow_mod(g, 32, p) == 1742);
    lemma_pow_mod_adds(g, 32, 32, p);
    assert(pow_mod(g, 64, p) == 24223);
    lemma_pow_mod_adds(g, 64, 64, p);
    assert(pow_mod(g, 128, p) == 1299);
    lemma_pow_mod_adds(g, 128, 32, p);
    assert(pow_mod(g, 160, p) == 44712);
    lemma_pow_mod_adds(g, 160, 2, p);
    assert(pow_mod(g, 162, p) == 8925);
    lemma_pow_mod_adds(g, 162, 1, p);
    assert(pow_mod(g, 163, p) == 1);
}

/// The numbers with the 32-bit prime: the powers of the generator come back
/// to one after as many steps as the order says.
pub proof fn lemma_cycle_32()
    ensures
        is_cycle(SCH_P_32 as int, SCH_G_32 as int, SCH_Q_16 as int),
{
    let g: int = 3196401078;
    let p: int = 3552575077;
    lemma_pow1(g);
    assert(pow_mod(g, 1, p) == 3196401078);
    lemma_pow_mod_adds(g, 1, 1, p);
    assert(pow_mod(g, 2, p) == 1655162056);
    lemma_pow_mod_adds(g, 2, 2, p);
    assert(pow_mod(g, 4, p) == 3253195438);
    lemma_pow_mod_adds(g, 4, 4, p);
    assert(pow_mod(g, 8, p) == 2949881931);
    lemma_pow_mod_adds(g, 8, 8, p);
    assert(pow_mod(g, 16, p) == 3398507571);
    lemma_pow_mod_adds(g, 16, 16, p);
    assert(pow_mod(g, 32, p) == 3137528838);
    lemma_pow_mod_adds(g, 32, 32, p);
    assert(pow_mod(g, 64, p) == 2640186527);
    lemma_pow_mod_adds(g, 64, 64, p);
    assert(pow_mod(g, 128, p) == 2763770516);
    lemma_pow_mod_adds(g, 128, 128, p);
    assert(pow_mod(g, 256, p) == 3411880558);
    lemma_pow_mod_adds(g, 256, 256, p);
    assert(pow_mod(g, 512, p) == 2900172438);
    lemma_pow_mod_adds(g, 512, 512, p);
    assert(pow_mod(g, 1024, p) == 690598733);
    lemma_pow_mod_adds(g, 1024, 1024, p);
    assert(pow_mod(g, 2048, p) == 3065873278);
    lemma_pow_mod_adds(g, 2048, 2048, p);
    assert(pow_mod(g, 4096, p) == 1087304554);
    lemma_pow_mod_adds(g, 4096, 4096, p);
    assert(pow_mod(g, 8192, p) == 1213964956);
    lemma_pow_mod_adds(g, 8192, 8192, p);
    assert(pow_mod(g, 16384, p) == 12079403);
    lemma_pow_mod_adds(g, 16384, 16384, p);
    assert(pow_mod(g, 32768, p) == 613273865);
    lemma_pow_mod_adds(g, 32768, 8192, p);
    assert(pow_mod(g, 40960, p) == 280222300);
    lemma_pow_mod_adds(g, 40960, 2048, p);
    assert(pow_mod(g, 43008, p) == 2549491406);
    lemma_pow_mod_adds(g, 43008, 512, p);
    assert(pow_mod(g, 43520, p) == 393605271);
    lemma_pow_mod_adds(g, 43520, 64, p);
    assert(pow_mod(g, 43584, p) == 1273915681);
    lemma_pow_mod_adds(g, 43584, 16, p);
    assert(pow_mod(g, 43600, p) == 428380181);
    lemma_pow_mod_adds(g, 43600, 4, p);
    assert(pow_mod(g, 43604, p) == 936947810);
    lemma_pow_mod_adds(g, 43604, 2, p);
    assert(pow_mod(g, 43606, p) == 2225048702);
    lemma_pow_mod_adds(g, 43606, 1, p);
    assert(pow_mod(g, 43607, p) == 1);
}

/// The numbers with the 128-bit prime: the powers of the generator come back
/// to one after as many steps as the order says.
pub proof fn lemma_cycle_128()
    ensures
        is_cycle(SCH_P_128 as int, SCH_G_128 as int, SCH_Q_64 as int),
{
    let g: int = 119623129323905044429391025715657774932;
    let p: int = 248887481077937771352227813962501876493;
    lemma_pow1(g);
    assert(pow_mod(g, 1, p) == 119623129323905044429391025715657774932);
    lemma_pow_mod_adds(g, 1, 1, p);
    assert(pow_mod(g, 2, p) == 20479074084410137519273823486984024539);
    lemma_pow_mod_adds(g, 2, 2, p);
    assert(pow_mod(g, 4, p) == 76018193259280737669911404354998868355);
    lemma_pow_mod_adds(g, 4, 4, p);
    assert(pow_mod(g, 8, p) == 82596934150067099666818258911682579571);
    lemma_pow_mod_adds(g, 8, 8, p);
    assert(pow_mod(g, 16, p) == 197962351968481877337873667294031629531);
    lemma_pow_mod_adds(g, 16, 16, p);
    assert(pow_mod(g, 32, p) == 210462336102546846827132567110481493668);
    lemma_pow_mod_adds(g, 32, 32, p);
    assert(pow_mod(g, 64, p) == 94675073463162735463116939581266757257);
    lemma_pow_mod_adds(g, 64, 64, p);
    assert(pow_mod(g, 128, p) == 239035594564406394071165718335361054207);
    lemma_pow_mod_adds(g, 128, 128, p);
    assert(pow_mod(g, 256, p) == 164993346814189267654637554995035850955);
    lemma_pow_mod_adds(g, 256, 256, p);
    assert(pow_mod(g, 512, p) == 236095122304002673887302330346344931270);
    lemma_pow_mod_adds(g, 512, 512, p);
    assert(pow_mod(g, 1024, p) == 238336078042194243061777742653036166729);
    lemma_pow_mod_adds(g, 1024, 1024, p);
    assert(pow_mod(g, 2048, p) == 186551241704034561553633706697369326948);
    lemma_pow_mod_adds(g, 2048, 2048, p);
    assert(pow_mod(g, 4096, p) == 80098135494395487056235353227281179406);
    lemma_pow_mod_adds(g, 4096, 4096, p);
    assert(pow_mod(g, 8192, p) == 19148303310709266152326344205964852387);
    lemma_pow_mod_adds(g, 8192, 8192, p);
    assert(pow_mod(g, 16384, p) == 103915105132256132627894315746056932040);
    lemma_pow_mod_adds(g, 16384, 16384, p);
    assert(pow_mod(g, 32768, p) == 155588512267682267731961272209540358837);
    lemma_pow_mod_adds(g, 32768, 32768, p);
    assert(pow_mod(g, 65536, p) == 120680852440704724737374613340985060781);
    lemma_pow_mod_adds(g, 65536, 65536, p);
    assert(pow_mod(g, 131072, p) == 166086915113394874992440840788557292595);
    lemma_pow_mod_adds(g, 131072, 131072, p);
    assert(pow_mod(g, 262144, p) == 16107287403725075510634148755880576054);
    lemma_pow_mod_adds(g, 262144, 262144, p);
    assert(pow_mod(g, 524288, p) == 186261376187704242830088952665080634425);
    lemma_pow_mod_adds(g, 524288, 524288, p);
    assert(pow_mod(g, 1048576, p) == 128483506943495464116551776754657435085);
    lemma_pow_mod_adds(g, 1048576, 1048576, p);
    assert(pow_mod(g, 2097152, p) == 202422615246345959138284620905146759953);
    lemma_pow_mod_adds(g, 2097152, 2097152, p);
    assert(pow_mod(g, 4194304, p) == 9678629768328460711151316491826807099);
    lemma_pow_mod_adds(g, 4194304, 4194304, p);
    assert(pow_mod(g, 8388608, p) == 6654462095787844954660378907338260829);
    lemma_pow_mod_adds(g, 8388608, 8388608, p);
    assert(pow_mod(g, 16777216, p) == 17141295148467515090313333766063565297);
    lemma_pow_mod_adds(g, 16777216, 16777216, p);
    assert(pow_mod(g, 33554432, p) == 160820863054042327875106242465322272636);
    lemma_pow_mod_adds(g, 33554432, 33554432, p);
    assert(pow_mod(g, 67108864, p) == 132392304329433387452665073596803805960);
    lemma_pow_mod_adds(g, 67108864, 67108864, p);
    assert(pow_mod(g, 134217728, p) == 182956881562549887656901509216929310095);
    lemma_pow_mod_adds(g, 134217728, 134217728, p);
    assert(pow_mod(g, 268435456, p) == 11153510289107374530011908293009083182);
    lemma_pow_mod_adds(g, 268435456, 268435456, p);
    assert(pow_mod(g, 536870912, p) == 191880360813953313059979421351559638917);
    lemma_pow_mod_adds(g, 536870912, 536870912, p);
    assert(pow_mod(g, 1073741824, p) == 36729936898898072563159938047020619674);
    lemma_pow_mod_adds(g, 1073741824, 1073741824, p);
    assert(pow_mod(g, 2147483648, p) == 111912869344403215278169306483610819304);
    lemma_pow_mod_adds(g, 2147483648, 2147483648, p);
    assert(pow_mod(g, 4294967296, p) == 67563583828505852922831829020076182185);
    lemma_pow_mod_adds(g, 4294967296, 4294967296, p);
    assert(pow_mod(g, 8589934592, p) == 65727145361473609913661434543610645627);
    lemma_pow_mod_adds(g, 8589934592, 8589934592, p);
    assert(pow_mod(g, 17179869184, p) == 83227401994846218173971189054076653239);
    lemma_pow_mod_adds(g, 17179869184, 17179869184, p);
    assert(pow_mod(g, 34359738368, p) == 142334957833573545407185947835570586221);
    lemma_pow_mod_adds(g, 34359738368, 34359738368, p);
    assert(pow_mod(g, 68719476736, p) == 36046166110492888987175498295097860306);
    lemma_pow_mod_adds(g, 68719476736, 68719476736, p);
    assert(pow_mod(g, 137438953472, p) == 145479221114595297207172658831704083022);
    lemma_pow_mod_adds(g, 137438953472, 137438953472, p);
    assert(pow_mod(g, 274877906944, p) == 138980635301564204165908244992250177316);
    lemma_pow_mod_adds(g, 274877906944, 274877906944, p);
    assert(pow_mod(g, 549755813888, p) == 1017688667979850954609758568434071147);
    lemma_pow_mod_adds(g, 549755813888, 549755813888, p);
    assert(pow_mod(g, 1099511627776, p) == 196025145452673192661179506580930532641);
    lemma_pow_mod_adds(g, 1099511627776, 1099511627776, p);
    assert(pow_mod(g, 2199023255552, p) == 245942433554308203317838450574634272719);
    lemma_pow_mod_adds(g, 2199023255552, 2199023255552, p);
    assert(pow_mod(g, 4398046511104, p) == 51350791006510710421577723714200662626);
    lemma_pow_mod_adds(g, 4398046511104, 4398046511104, p);
    assert(pow_mod(g, 8796093022208, p) == 181872037917517045997473385352268078254);
    lemma_pow_mod_adds(g, 8796093022208, 8796093022208, p);
    assert(pow_mod(g, 17592186044416, p) == 245425761479028388172825715247767703535);
    lemma_pow_mod_adds(g, 17592186044416, 17592186044416, p);
    assert(pow_mod(g, 35184372088832, p) == 142236723260828070498844667760695654730);
    lemma_pow_mod_adds(g, 35184372088832, 35184372088832, p);
    assert(pow_mod(g, 70368744177664, p) == 5511471408754128739145035075410349316);
    lemma_pow_mod_adds(g, 70368744177664, 70368744177664, p);
    assert(pow_mod(g, 140737488355328, p) == 4760051202462537080462761443065323188);
    lemma_pow_mod_adds(g, 140737488355328, 140737488355328, p);
    assert(pow_mod(g, 281474976710656, p) == 201576821649532418503413654791048746265);
    lemma_pow_mod_adds(g, 281474976710656, 281474976710656, p);
    assert(pow_mod(g, 562949953421312, p) == 91471778528376932052803174033887210486);
    lemma_pow_mod_adds(g, 562949953421312, 562949953421312, p);
    assert(pow_mod(g, 1125899906842624, p) == 121612825812670094434268295668065380213);
    lemma_pow_mod_adds(g, 1125899906842624, 1125899906842624, p);
    assert(pow_mod(g, 2251799813685248, p) == 239727053737926170846736035639196222291);
    lemma_pow_mod_adds(g, 2251799813685248, 2251799813685248, p);
    assert(pow_mod(g, 4503599627370496, p) == 173521343445223600273480412784691118241);
    lemma_pow_mod_adds(g, 4503599627370496, 4503599627370496, p);
    assert(pow_mod(g, 9007199254740992, p) == 243394195665530023838436806089363976851);
    lemma_pow_mod_adds(g, 9007199254740992, 9007199254740992, p);
    assert(pow_mod(g, 18014398509481984, p) == 42841364114060794851904102709181443655);
    lemma_pow_mod_adds(g, 18014398509481984, 18014398509481984, p);
    assert(pow_mod(g, 36028797018963968, p) == 172153212329012143383605251703305927070);
    lemma_pow_mod_adds(g, 36028797018963968, 36028797018963968, p);
    assert(pow_mod(g, 72057594037927936, p) == 118086142414572167883779345371703919091);
    lemma_pow_mod_adds(g, 72057594037927936, 72057594037927936, p);
    assert(pow_mod(g, 144115188075855872, p) == 174819379465445695352520729088500122302);
    lemma_pow_mod_adds(g, 144115188075855872, 144115188075855872, p);
    assert(pow_mod(g, 288230376151711744, p) == 192891551161323749471454042450386002355);
    lemma_pow_mod_adds(g, 288230376151711744, 288230376151711744, p);
    assert(pow_mod(g, 576460752303423488, p) == 185057882798915971985684068153917175246);
    lemma_pow_mod_adds(g, 576460752303423488, 576460752303423488, p);
    assert(pow_mod(g, 1152921504606846976, p) == 153196322296929397387876494079007643417);
    lemma_pow_mod_adds(g, 1152921504606846976, 1152921504606846976, p);
    assert(pow_mod(g, 2305843009213693952, p) == 192609795347759813651454433738301593382);
    lemma_pow_mod_adds(g, 2305843009213693952, 2305843009213693952, p);
    assert(pow_mod(g, 4611686018427387904, p) == 190115380303476615266135309042155804715);
    lemma_pow_mod_adds(g, 4611686018427387904, 4611686018427387904, p);
    assert(pow_mod(g, 9223372036854775808, p) == 213971676938604521289016951100392997976);
    lemma_pow_mod_adds(g, 9223372036854775808, 2305843009213693952, p);
    assert(pow_mod(g, 11529215046068469760, p) == 84797454457474657243355183973381354024);
    lemma_pow_mod_adds(g, 11529215046068469760, 576460752303423488, p);
    assert(pow_mod(g, 12105675798371893248, p) == 55573034994072844181623364603057343984);
    lemma_pow_mod_adds(g, 12105675798371893248, 72057594037927936, p);
    assert(pow_mod(g, 12177733392409821184, p) == 186821207534580903409614159680738265476);
    lemma_pow_mod_adds(g, 12177733392409821184, 36028797018963968, p);
    assert(pow_mod(g, 12213762189428785152, p) == 130058513348229099371829006993806127230);
    lemma_pow_mod_adds(g, 12213762189428785152, 9007199254740992, p);
    assert(pow_mod(g, 12222769388683526144, p) == 132228578090400748612559801112050853963);
    lemma_pow_mod_adds(g, 12222769388683526144, 281474976710656, p);
    assert(pow_mod(g, 12223050863660236800, p) == 47654237569588493381899392081522261782);
    lemma_pow_mod_adds(g, 12223050863660236800, 35184372088832, p);
    assert(pow_mod(g, 12223086048032325632, p) == 34111074475587330764104109740399816257);
    lemma_pow_mod_adds(g, 12223086048032325632, 17592186044416, p);
    assert(pow_mod(g, 12223103640218370048, p) == 212067153949481152036592746237453187562);
    lemma_pow_mod_adds(g, 12223103640218370048, 4398046511104, p);
    assert(pow_mod(g, 12223108038264881152, p) == 82109596769765140321873658550757714865);
    lemma_pow_mod_adds(g, 12223108038264881152, 2199023255552, p);
    assert(pow_mod(g, 12223110237288136704, p) == 13259936737243161182878806667693003629);
    lemma_pow_mod_adds(g, 12223110237288136704, 34359738368, p);
    assert(pow_mod(g, 12223110271647875072, p) == 152120608189516996650143643414572698915);
    lemma_pow_mod_adds(g, 12223110271647875072, 17179869184, p);
    assert(pow_mod(g, 12223110288827744256, p) == 126053183399554557181139445246652370870);
    lemma_pow_mod_adds(g, 12223110288827744256, 4294967296, p);
    assert(pow_mod(g, 12223110293122711552, p) == 180926625569363820777346272957089395268);
    lemma_pow_mod_adds(g, 12223110293122711552, 1073741824, p);
    assert(pow_mod(g, 12223110294196453376, p) == 83741616843361586499856739931560936205);
    lemma_pow_mod_adds(g, 12223110294196453376, 67108864, p);
    assert(pow_mod(g, 12223110294263562240, p) == 124118151479342204986762760171964859228);
    lemma_pow_mod_adds(g, 12223110294263562240, 33554432, p);
    assert(pow_mod(g, 12223110294297116672, p) == 13328354435974369223231644764092806591);
    lemma_pow_mod_adds(g, 12223110294297116672, 16777216, p);
    assert(pow_mod(g, 12223110294313893888, p) == 234422669535715859592294739989799599496);
    lemma_pow_mod_adds(g, 12223110294313893888, 4194304, p);
    assert(pow_mod(g, 12223110294318088192, p) == 230215326693090899753921764818363793743);
    lemma_pow_mod_adds(g, 12223110294318088192, 1048576, p);
    assert(pow_mod(g, 12223110294319136768, p) == 77712703550819674462337412872681113642);
    lemma_pow_mod_adds(g, 12223110294319136768, 4096, p);
    assert(pow_mod(g, 12223110294319140864, p) == 31961164764435304181111887647038957577);
    lemma_pow_mod_adds(g, 12223110294319140864, 1024, p);
    assert(pow_mod(g, 12223110294319141888, p) == 71843320082415655422018200996309324982);
    lemma_pow_mod_adds(g, 12223110294319141888, 512, p);
    assert(pow_mod(g, 12223110294319142400, p) == 219779337284886858622964652961857968639);
    lemma_pow_mod_adds(g, 12223110294319142400, 32, p);
    assert(pow_mod(g, 12223110294319142432, p) == 7398404664904822189950507377547334015);
    lemma_pow_mod_adds(g, 12223110294319142432, 8, p);
    assert(pow_mod(g, 12223110294319142440, p) == 45177107842803451419766555493360305820);
    lemma_pow_mod_adds(g, 12223110294319142440, 2, p);
    assert(pow_mod(g, 12223110294319142442, p) == 195544990808963221766494219453075865483);
    lemma_pow_mod_adds(g, 12223110294319142442, 1, p);
    assert(pow_mod(g, 12223110294319142443, p) == 1);
}

} // verus!
