use schnorr_fhe::enc128::Encrypted128;
use schnorr_fhe::enc16::Encrypted16;
use schnorr_fhe::enc32::Encrypted32;
use schnorr_fhe::enc64::Encrypted64;
use schnorr_fhe::enc8::Encrypted8;
use schnorr_fhe::engine::Evaluator;
use schnorr_fhe::modarith16::{narrow_16, widen_8};
use schnorr_fhe::modarith64::{narrow_64, widen_32};
use schnorr_fhe::utils;
use tfhe::{ClientKey, CompactPublicKey, ConfigBuilder};

// What is encrypted under a client key decrypts under it to the same number
#[test]
fn encrypt_then_decrypt_gives_the_number_back() {
    let client_key = ClientKey::generate(ConfigBuilder::default());
    for v in [0u8, 1, 61, 199, u8::MAX] {
        assert_eq!(Encrypted8::encrypt(v, &client_key).decrypt(&client_key), v);
    }
    for v in [0u16, 3, 1344, u16::MAX] {
        assert_eq!(Encrypted16::encrypt(v, &client_key).decrypt(&client_key), v);
    }
    for v in [0u32, 1344, 4050919841, u32::MAX] {
        assert_eq!(Encrypted32::encrypt(v, &client_key).decrypt(&client_key), v);
    }
    for v in [0u64, 3552575077, u64::MAX] {
        assert_eq!(Encrypted64::encrypt(v, &client_key).decrypt(&client_key), v);
    }
    for v in [0u128, 248887481077937771352227813962501876493, u128::MAX] {
        assert_eq!(Encrypted128::encrypt(v, &client_key).decrypt(&client_key), v);
    }
}

// What is encrypted under the public key decrypts under the client key
#[test]
fn public_key_encrypts_for_the_client_key() {
    let client_key = ClientKey::generate(ConfigBuilder::default());
    let public_key = CompactPublicKey::new(&client_key);
    assert_eq!(Encrypted8::encrypt_public(170, &public_key).decrypt(&client_key), 170);
    assert_eq!(Encrypted16::encrypt_public(1344, &public_key).decrypt(&client_key), 1344);
    assert_eq!(Encrypted32::encrypt_public(0xAAAAAAAA, &public_key).decrypt(&client_key), 0xAAAAAAAA);
    assert_eq!(Encrypted64::encrypt_public(u64::MAX, &public_key).decrypt(&client_key), u64::MAX);
    assert_eq!(Encrypted128::encrypt_public(7, &public_key).decrypt(&client_key), 7);
}

// With the exponent one no multiplication is made: the result holds the base
#[test]
fn exponent_one_gives_the_base() {
    let (client_key, server_key, public_key) = utils::init_keys();
    let ev = Evaluator::new(server_key);

    let a = Encrypted16::encrypt(3u16, &client_key);
    assert_eq!(utils::fhe_exp_16(&ev, &a, 1).decrypt(&client_key), 3);
    assert_eq!(utils::fhe_exp_16_naive(&ev, &a, 1).decrypt(&client_key), 3);

    let b = Encrypted32::encrypt_public(1344u32, &public_key);
    assert_eq!(utils::fhe_exp_32(&ev, &b, 1).decrypt(&client_key), 1344);
    assert_eq!(utils::fhe_exp_32_naive(&ev, &b, 1).decrypt(&client_key), 1344);

    let c = Encrypted64::encrypt(3552575076u64, &client_key);
    assert_eq!(utils::fhe_exp_64(&ev, &c, 1).decrypt(&client_key), 3552575076);
    assert_eq!(utils::fhe_exp_64_naive(&ev, &c, 1).decrypt(&client_key), 3552575076);

    let d = Encrypted128::encrypt(u128::MAX, &client_key);
    assert_eq!(utils::fhe_exp_128(&ev, &d, 1).decrypt(&client_key), u128::MAX);
    assert_eq!(utils::fhe_exp_128_naive(&ev, &d, 1).decrypt(&client_key), u128::MAX);
}

// Moving a number into the wider container keeps it; moving it back keeps its
// low bits. These are the operations of the engine that finish in the time a
// test has.
#[test]
fn casts_keep_the_value() {
    let (client_key, server_key, public_key) = utils::init_keys();
    let ev = Evaluator::new(server_key);

    let a = Encrypted8::encrypt(199u8, &client_key);
    assert_eq!(widen_8(&ev, a).decrypt(&client_key), 199u16);
    let b = Encrypted16::encrypt_public(0x1234u16, &public_key);
    assert_eq!(narrow_16(&ev, b).decrypt(&client_key), 0x34u8);
    let c = Encrypted16::encrypt(13u16, &client_key);
    assert_eq!(narrow_16(&ev, c).decrypt(&client_key), 13u8);

    let d = Encrypted32::encrypt(1344u32, &client_key);
    assert_eq!(widen_32(&ev, d).decrypt(&client_key), 1344u64);
    let e = Encrypted32::encrypt_public(5u32, &public_key);
    assert_eq!(widen_32(&ev, e).decrypt(&client_key), 5u64);
    let f = Encrypted64::encrypt(0x1_0000_0007u64, &client_key);
    assert_eq!(narrow_64(&ev, f).decrypt(&client_key), 7u32);
}

// Every operation computes with the key of its handle, whatever key was
// installed last
#[test]
fn a_handle_keeps_its_key() {
    let (client_key, server_key, _public_key) = utils::init_keys();
    let ev = Evaluator::new(server_key);
    tfhe::unset_server_key();
    let a = Encrypted8::encrypt(61u8, &client_key);
    let wide = widen_8(&ev, a);
    tfhe::unset_server_key();
    assert_eq!(narrow_16(&ev, wide).decrypt(&client_key), 61u8);
}
