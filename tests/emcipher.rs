use base64::Engine;
use emcipher::aead::{decrypt_aead, encrypt_aead, seal_with_nonce};
use emcipher::boundary::{decrypt_aead_b64, derive_master_key_b64, derive_message_key_b64, encrypt_aead_b64};
use emcipher::kdf::{derive_master_key, derive_message_key};
use emcipher::{params_from_profile, CryptoError, DeviceClass, KdfParams};

const SEED: &str = "correct horse battery staple";
const CONV: &str = "123e4567-e89b-12d3-a456-426614174000";

fn light() -> KdfParams {
    KdfParams { m_cost_kib: 64, t_cost: 1, p_cost: 1 }
}

fn b64(bytes: &[u8]) -> String {
    base64::engine::general_purpose::STANDARD.encode(bytes)
}

fn light_master_key() -> [u8; 32] {
    derive_master_key(SEED, &[7u8; 16], light(), CONV).expect("km")
}

#[test]
fn roundtrip() {
    let seed = "correct horse battery staple";
    let salt = [7u8; 16];
    let conv_id = "123e4567-e89b-12d3-a456-426614174000";

    let kdf = KdfParams { m_cost_kib: 262_144, t_cost: 3, p_cost: 1 };

    let km = derive_master_key(seed, &salt, kdf, conv_id).expect("km");
    let kmsg = derive_message_key(&km, 1).expect("kmsg");

    let aad = b"conv=123e4567;msg=1;v=1";
    let msg = b"hello, emcipher!";
    let (n, ct) = encrypt_aead(&kmsg, msg, aad).expect("enc");
    let pt = decrypt_aead(&kmsg, &n, &ct, aad).expect("dec");
    assert_eq!(pt, msg);
}

#[test]
fn concrete_scenario() {
    let salt = [7u8; 16];
    let kdf = KdfParams { m_cost_kib: 262_144, t_cost: 3, p_cost: 1 };
    let km = derive_master_key(SEED, &salt, kdf, CONV).expect("km");
    assert_eq!(derive_message_key(&km, 1), derive_message_key(&km, 1));

    let k1 = derive_message_key(&km, 1).expect("k1");
    let k2 = derive_message_key(&km, 2).expect("k2");
    assert_ne!(k1, k2);

    let msg = b"hello, emcipher!";
    let (n, ct) = encrypt_aead(&k1, msg, b"conv=123e4567;msg=1;v=1").expect("enc");
    let pt = decrypt_aead(&k1, &n, &ct, b"conv=123e4567;msg=1;v=1").expect("dec");
    assert_eq!(pt, msg.to_vec());
    assert_eq!(decrypt_aead(&k1, &n, &ct, b"conv=123e4567;msg=2;v=1"), Err(CryptoError::Decrypt));
}

#[test]
fn concrete_scenario_rederivation() {
    // Same inputs as the scenario but a lighter memory cost, so that two
    // derivations fit the time given to one test in a debug build.
    let salt = [7u8; 16];
    let kdf = KdfParams { m_cost_kib: 32_768, t_cost: 3, p_cost: 1 };
    let km = derive_master_key(SEED, &salt, kdf, CONV).expect("km");
    let again = derive_master_key(SEED, &salt, kdf, CONV).expect("km again");
    assert_eq!(km, again);
}

#[test]
fn master_key_is_deterministic() {
    let a = light_master_key();
    let b = light_master_key();
    assert_eq!(a, b);
    assert_ne!(a, [0u8; 32]);
}

#[test]
fn master_key_depends_on_conversation_seed_and_salt() {
    let a = light_master_key();
    let other_conv = derive_master_key(SEED, &[7u8; 16], light(), "123e4567-e89b-12d3-a456-426614174001").unwrap();
    let other_seed = derive_master_key("correct horse battery stapler", &[7u8; 16], light(), CONV).unwrap();
    let other_salt = derive_master_key(SEED, &[8u8; 16], light(), CONV).unwrap();
    assert_ne!(a, other_conv);
    assert_ne!(a, other_seed);
    assert_ne!(a, other_salt);
}

#[test]
fn master_key_rejects_bad_costs_and_salts() {
    let salt = [7u8; 16];
    let bad = |kdf: KdfParams| derive_master_key(SEED, &salt, kdf, CONV);
    assert_eq!(bad(KdfParams { m_cost_kib: 7, t_cost: 1, p_cost: 1 }), Err(CryptoError::Argon2));
    assert_eq!(bad(KdfParams { m_cost_kib: 64, t_cost: 0, p_cost: 1 }), Err(CryptoError::Argon2));
    assert_eq!(bad(KdfParams { m_cost_kib: 64, t_cost: 1, p_cost: 0 }), Err(CryptoError::Argon2));
    assert_eq!(bad(KdfParams { m_cost_kib: 64, t_cost: 1, p_cost: 9 }), Err(CryptoError::Argon2));
    assert_eq!(bad(KdfParams { m_cost_kib: 64, t_cost: 1, p_cost: 0x1000_0000 }), Err(CryptoError::Argon2));
    assert_eq!(bad(KdfParams { m_cost_kib: u32::MAX, t_cost: 1, p_cost: 0xFFFF_FFFF }), Err(CryptoError::Argon2));
    assert_eq!(derive_master_key(SEED, &[7u8; 7], light(), CONV), Err(CryptoError::Argon2));
    assert!(derive_master_key(SEED, &[7u8; 8], light(), CONV).is_ok());
    assert!(derive_master_key("", &[7u8; 8], light(), "").is_ok());
}

#[test]
fn message_key_is_deterministic_and_counter_bound() {
    let km = light_master_key();
    let k1 = derive_message_key(&km, 1).unwrap();
    assert_eq!(k1, derive_message_key(&km, 1).unwrap());
    assert_ne!(k1, km);
    let keys: Vec<[u8; 32]> = [0u64, 1, 2, 10, 11, 100, u64::MAX]
        .iter()
        .map(|c| derive_message_key(&km, *c).unwrap())
        .collect();
    for i in 0..keys.len() {
        for j in 0..keys.len() {
            if i != j {
                assert_ne!(keys[i], keys[j]);
            }
        }
    }
    let mut other = km;
    other[0] ^= 1;
    assert_ne!(derive_message_key(&other, 1).unwrap(), k1);
}

#[test]
fn message_key_rejects_wrong_master_key_length() {
    let km = light_master_key();
    assert_eq!(derive_message_key(&km[..31], 1), Err(CryptoError::KeyLen));
    assert_eq!(derive_message_key(&[0u8; 33], 1), Err(CryptoError::KeyLen));
    assert_eq!(derive_message_key(&[], 1), Err(CryptoError::KeyLen));
}

#[test]
fn decrypt_rejects_wrong_lengths() {
    let key = [3u8; 32];
    let (n, ct) = encrypt_aead(&key, b"x", b"").unwrap();
    assert_eq!(decrypt_aead(&key, &n[..23], &ct, b""), Err(CryptoError::KeyLen));
    let mut long_nonce = n.clone();
    long_nonce.push(0);
    assert_eq!(decrypt_aead(&key, &long_nonce, &ct, b""), Err(CryptoError::KeyLen));
    assert_eq!(decrypt_aead(&key[..31], &n, &ct, b""), Err(CryptoError::KeyLen));
    assert_eq!(encrypt_aead(&key[..31], b"x", b""), Err(CryptoError::KeyLen));
    assert_eq!(seal_with_nonce(&key, &[0u8; 12], b"x", b""), Err(CryptoError::KeyLen));
}

#[test]
fn encrypt_then_decrypt_round_trips() {
    let key = [9u8; 32];
    for msg in [&b""[..], &b"a"[..], &[0u8; 1000][..]] {
        let (n, ct) = encrypt_aead(&key, msg, b"aad").unwrap();
        assert_eq!(n.len(), 24);
        assert_eq!(ct.len(), msg.len() + 16);
        assert_eq!(decrypt_aead(&key, &n, &ct, b"aad").unwrap(), msg.to_vec());
    }
}

#[test]
fn tampering_fails_decryption() {
    let key = [5u8; 32];
    let aad = b"conv=1;msg=7".to_vec();
    let (n, ct) = encrypt_aead(&key, b"attack at dawn", &aad).unwrap();
    for i in 0..ct.len() {
        let mut bad = ct.clone();
        bad[i] ^= 0x01;
        assert_eq!(decrypt_aead(&key, &n, &bad, &aad), Err(CryptoError::Decrypt));
    }
    for i in 0..n.len() {
        let mut bad = n.clone();
        bad[i] ^= 0x80;
        assert_eq!(decrypt_aead(&key, &bad, &ct, &aad), Err(CryptoError::Decrypt));
    }
    for i in 0..aad.len() {
        let mut bad = aad.clone();
        bad[i] ^= 0x04;
        assert_eq!(decrypt_aead(&key, &n, &ct, &bad), Err(CryptoError::Decrypt));
    }
    let mut other_key = key;
    other_key[31] ^= 1;
    assert_eq!(decrypt_aead(&other_key, &n, &ct, &aad), Err(CryptoError::Decrypt));
    assert_eq!(decrypt_aead(&key, &n, &ct[..15], &aad), Err(CryptoError::Decrypt));
    assert_eq!(decrypt_aead(&key, &n, &ct, b""), Err(CryptoError::Decrypt));
}

#[test]
fn nonces_are_fresh() {
    let key = [1u8; 32];
    let (n1, c1) = encrypt_aead(&key, b"same", b"same").unwrap();
    let (n2, c2) = encrypt_aead(&key, b"same", b"same").unwrap();
    assert_ne!(n1, n2);
    assert_ne!(c1, c2);
}

#[test]
fn sealing_under_a_fixed_nonce_is_reproducible() {
    let key = [2u8; 32];
    let nonce = [4u8; 24];
    let a = seal_with_nonce(&key, &nonce, b"plain text", b"ad").unwrap();
    let b = seal_with_nonce(&key, &nonce, b"plain text", b"ad").unwrap();
    assert_eq!(a, b);
    assert_eq!(a.len(), 10 + 16);
    assert_ne!(&a[..10], b"plain text");
    assert_eq!(decrypt_aead(&key, &nonce, &a, b"ad").unwrap(), b"plain text".to_vec());
    let c = seal_with_nonce(&key, &[5u8; 24], b"plain text", b"ad").unwrap();
    assert_ne!(a, c);
}

#[test]
fn profiles_select_presets() {
    assert_eq!(params_from_profile("desktop"), KdfParams { m_cost_kib: 262_144, t_cost: 3, p_cost: 1 });
    assert_eq!(params_from_profile("mobile"), KdfParams { m_cost_kib: 65_536, t_cost: 4, p_cost: 1 });
    assert_eq!(params_from_profile("watch"), KdfParams { m_cost_kib: 32_768, t_cost: 4, p_cost: 1 });
    assert_eq!(params_from_profile(""), KdfParams::for_class(DeviceClass::LowPower));
    assert_eq!(params_from_profile("Desktop"), KdfParams::for_class(DeviceClass::LowPower));
    assert_eq!(params_from_profile("desktop "), KdfParams::for_class(DeviceClass::LowPower));
    assert_eq!(KdfParams::for_class(DeviceClass::Mobile).m_cost_kib, 65_536);
}

#[test]
fn error_messages_are_generic() {
    assert_eq!(CryptoError::Decrypt.message(), "decrypt failure (bad key/nonce/AAD/ciphertext)");
    assert_eq!(CryptoError::KeyLen.message(), "invalid key length");
    assert!(!CryptoError::Argon2.message().is_empty());
}

#[test]
fn base64_message_key_matches_bytes() {
    let km = light_master_key();
    let k7 = derive_message_key(&km, 7).unwrap();
    assert_eq!(derive_message_key_b64(&b64(&km), 7).unwrap(), b64(&k7));
    assert_eq!(derive_message_key_b64("not base64!", 7), Err(CryptoError::B64));
    assert_eq!(derive_message_key_b64(&b64(&km[..16]), 7), Err(CryptoError::KeyLen));
}

#[test]
fn base64_master_key_matches_bytes() {
    let salt = [7u8; 16];
    let km = derive_master_key(SEED, &salt, KdfParams::for_class(DeviceClass::LowPower), CONV).unwrap();
    assert_eq!(derive_master_key_b64(SEED, &b64(&salt), CONV, "anything").unwrap(), b64(&km));
    assert_eq!(derive_master_key_b64(SEED, "BwcHBwcHBwcHBwcHBwcHBw", CONV, "low"), Err(CryptoError::B64));
    assert_eq!(derive_master_key_b64(SEED, &b64(&salt[..4]), CONV, "low"), Err(CryptoError::Argon2));
}

#[test]
fn base64_encrypt_then_decrypt() {
    let key = b64(&[6u8; 32]);
    let (n, ct) = encrypt_aead_b64(&key, "hello, emcipher!", "v=1").unwrap();
    assert_eq!(decrypt_aead_b64(&key, &n, &ct, "v=1").unwrap(), "hello, emcipher!");
    assert_eq!(decrypt_aead_b64(&key, &n, &ct, "v=2"), Err(CryptoError::Decrypt));
    assert_eq!(decrypt_aead_b64(&key, "%%%", &ct, "v=1"), Err(CryptoError::B64));
    assert_eq!(decrypt_aead_b64(&key, &b64(&[0u8; 12]), &ct, "v=1"), Err(CryptoError::KeyLen));
    assert_eq!(encrypt_aead_b64("@@", "x", ""), Err(CryptoError::B64));
    assert_eq!(encrypt_aead_b64(&b64(&[6u8; 16]), "x", ""), Err(CryptoError::KeyLen));
}
