use base64::Engine;
use sync_copy::crypto::aes_gcm::AesGcmSealer;
use sync_copy::crypto::x25519::{hkdf_info_bytes, hkdf_salt_bytes, X25519KeyExchange, X25519Secret};
use sync_copy::crypto::{aad_magic_bytes, build_aad, AadKind, KeyExchange, KeyExchangeError, SealError, Sealer};

const B64: base64::engine::GeneralPurpose = base64::engine::general_purpose::STANDARD;

fn test_key() -> [u8; 32] {
    [0x42u8; 32]
}

fn other_key() -> [u8; 32] {
    [0x13u8; 32]
}

#[test]
fn roundtrip_text_decrypts_to_plaintext() {
    let sealer = AesGcmSealer;
    let key = test_key();
    let plaintext = b"hello, sync-copy v2";
    let aad = build_aad(AadKind::Text, "device-A", 1);
    let (nonce_b64, ct_b64) = sealer.encrypt(&key, plaintext, &aad).expect("encrypt 不应失败");
    let recovered = sealer.decrypt(&key, &nonce_b64, &ct_b64, &aad).expect("decrypt 不应失败（正确 key + 正确 aad）");
    assert_eq!(recovered.as_slice(), plaintext, "round-trip 还原的明文与原始明文不一致");
}

#[test]
fn tampered_ciphertext_decrypt_fails() {
    let sealer = AesGcmSealer;
    let key = test_key();
    let plaintext = b"tamper me";
    let aad = build_aad(AadKind::Text, "device-A", 1);
    let (nonce_b64, ct_b64) = sealer.encrypt(&key, plaintext, &aad).expect("encrypt 不应失败");
    let mut ct_bytes = B64.decode(&ct_b64).expect("base64 decode");
    ct_bytes[0] ^= 0xFF;
    let bad_ct_b64 = B64.encode(&ct_bytes);
    let result = sealer.decrypt(&key, &nonce_b64, &bad_ct_b64, &aad);
    assert!(
        matches!(result, Err(SealError::DecryptFailed)),
        "篡改 ciphertext 后 decrypt 应返 DecryptFailed，实际: {:?}",
        result.err()
    );
}

#[test]
fn aad_byte_flip_magic_decrypt_fails() {
    let sealer = AesGcmSealer;
    let key = test_key();
    let aad = build_aad(AadKind::Text, "device-A", 1);
    let (nonce_b64, ct_b64) = sealer.encrypt(&key, b"aad test", &aad).expect("encrypt 不应失败");
    let mut bad_aad = aad.clone();
    bad_aad[0] ^= 0x01;
    let result = sealer.decrypt(&key, &nonce_b64, &ct_b64, &bad_aad);
    assert!(matches!(result, Err(SealError::DecryptFailed)), "改 aad magic 段首字节后 decrypt 应返 DecryptFailed");
}

#[test]
fn aad_byte_flip_kind_decrypt_fails() {
    let sealer = AesGcmSealer;
    let key = test_key();
    let aad = build_aad(AadKind::Text, "device-A", 1);
    let (nonce_b64, ct_b64) = sealer.encrypt(&key, b"aad kind test", &aad).expect("encrypt 不应失败");
    let mut bad_aad = aad.clone();
    bad_aad[12] ^= 0x01;
    let result = sealer.decrypt(&key, &nonce_b64, &ct_b64, &bad_aad);
    assert!(matches!(result, Err(SealError::DecryptFailed)), "改 aad kind 段字节后 decrypt 应返 DecryptFailed");
}

#[test]
fn aad_byte_flip_seq_decrypt_fails() {
    let sealer = AesGcmSealer;
    let key = test_key();
    let aad = build_aad(AadKind::File, "device-B", 99);
    let (nonce_b64, ct_b64) = sealer.encrypt(&key, b"aad seq test", &aad).expect("encrypt 不应失败");
    let mut bad_aad = aad.clone();
    let last = bad_aad.len() - 1;
    bad_aad[last] ^= 0x01;
    let result = sealer.decrypt(&key, &nonce_b64, &ct_b64, &bad_aad);
    assert!(matches!(result, Err(SealError::DecryptFailed)), "改 aad seq 段字节后 decrypt 应返 DecryptFailed");
}

#[test]
fn cross_origin_aad_rejected() {
    let sealer = AesGcmSealer;
    let key = test_key();
    let aad_a = build_aad(AadKind::Text, "device-A", 1);
    let aad_b = build_aad(AadKind::Text, "device-B", 1);
    let (nonce_b64, ct_b64) = sealer.encrypt(&key, b"cross origin test", &aad_a).expect("encrypt 不应失败");
    let result = sealer.decrypt(&key, &nonce_b64, &ct_b64, &aad_b);
    assert!(matches!(result, Err(SealError::DecryptFailed)), "跨 origin_device_id 的 aad 不应解密成功");
}

#[test]
fn cross_seq_aad_rejected() {
    let sealer = AesGcmSealer;
    let key = test_key();
    let aad_seq1 = build_aad(AadKind::Text, "device-A", 1);
    let aad_seq2 = build_aad(AadKind::Text, "device-A", 2);
    let (nonce_b64, ct_b64) = sealer.encrypt(&key, b"cross seq test", &aad_seq1).expect("encrypt 不应失败");
    let result = sealer.decrypt(&key, &nonce_b64, &ct_b64, &aad_seq2);
    assert!(matches!(result, Err(SealError::DecryptFailed)), "跨 seq 的 aad 不应解密成功");
}

#[test]
fn nonce_uniqueness_under_repeated_encrypt() {
    let sealer = AesGcmSealer;
    let key = test_key();
    let aad = build_aad(AadKind::ImagePng, "device-A", 42);
    let nonces: std::collections::HashSet<String> = (0..100)
        .map(|_| {
            let (nonce_b64, _) = sealer.encrypt(&key, b"nonce test payload", &aad).expect("encrypt 不应失败");
            nonce_b64
        })
        .collect();
    assert_eq!(nonces.len(), 100, "100 次 encrypt 的 nonce 应全部不同（发现碰撞）");
}

#[test]
fn wrong_key_decrypt_fails() {
    let sealer = AesGcmSealer;
    let key = test_key();
    let wrong_key = other_key();
    let aad = build_aad(AadKind::Text, "device-A", 1);
    let (nonce_b64, ct_b64) = sealer.encrypt(&key, b"wrong key test", &aad).expect("encrypt 不应失败");
    let result = sealer.decrypt(&wrong_key, &nonce_b64, &ct_b64, &aad);
    assert!(matches!(result, Err(SealError::DecryptFailed)), "错误 key 解密应返 DecryptFailed");
}

#[test]
fn empty_plaintext_roundtrip() {
    let sealer = AesGcmSealer;
    let key = test_key();
    let plaintext = b"";
    let aad = build_aad(AadKind::Text, "device-A", 0);
    let (nonce_b64, ct_b64) = sealer.encrypt(&key, plaintext, &aad).expect("encrypt 不应失败（空明文）");
    let recovered = sealer.decrypt(&key, &nonce_b64, &ct_b64, &aad).expect("decrypt 不应失败（空明文 round-trip）");
    assert_eq!(recovered.as_slice(), plaintext);
}

#[test]
fn aad_layout_byte_exact() {
    let aad = build_aad(AadKind::Text, "device-A", 42);
    let mut expected = Vec::new();
    expected.extend_from_slice(b"sync-copy-v2");
    expected.extend_from_slice(b"text");
    expected.extend_from_slice(b"device-A");
    expected.extend_from_slice(&42u64.to_be_bytes());
    assert_eq!(aad, expected, "build_aad 字节顺序不符");
}

#[test]
fn aad_seq_is_big_endian() {
    let aad1 = build_aad(AadKind::File, "dev", 1u64);
    let aad2 = build_aad(AadKind::File, "dev", 256u64);
    let tail1 = &aad1[aad1.len() - 8..];
    let tail2 = &aad2[aad2.len() - 8..];
    assert_eq!(tail1, &1u64.to_be_bytes());
    assert_eq!(tail2, &256u64.to_be_bytes());
}

#[test]
fn aad_kind_bytes_all_distinct() {
    let kinds = [
        AadKind::Text,
        AadKind::ImagePng,
        AadKind::File,
        AadKind::Trust,
        AadKind::Ban,
        AadKind::Leave,
        AadKind::DeleteHistory,
        AadKind::ClearHistory,
        AadKind::Approval,
    ];
    let aads: Vec<Vec<u8>> = kinds.iter().map(|k| build_aad(*k, "origin", 0)).collect();
    for i in 0..aads.len() {
        for j in (i + 1)..aads.len() {
            assert_ne!(aads[i], aads[j], "AadKind {:?} 和 {:?} 产生相同 aad", kinds[i], kinds[j]);
        }
    }
}

#[test]
fn pubkey_b64_roundtrip() {
    let (_, pk) = X25519KeyExchange::new_ephemeral();
    let b64 = X25519KeyExchange::pubkey_to_b64(&pk);
    assert_eq!(b64.len(), 44, "公钥 base64 长度必须是 44");
    let pk2 = X25519KeyExchange::pubkey_from_b64(&b64).expect("pubkey_from_b64 不应失败（刚才 pubkey_to_b64 编码）");
    assert_eq!(pk, pk2, "pubkey_to_b64 -> pubkey_from_b64 roundtrip 字节不等");
}

#[test]
fn hkdf_deterministic_same_inputs_same_key() {
    let fake_shared = [0x42u8; 32];
    let key1 = X25519KeyExchange::derive_key_from_shared(&fake_shared).unwrap();
    let key2 = X25519KeyExchange::derive_key_from_shared(&fake_shared).unwrap();
    assert_eq!(key1, key2, "相同 shared secret 的 HKDF 输出必须确定性相等");
    assert_eq!(key1.len(), 32, "derive_aes_key 输出必须是 32 字节");
    // The same as HKDF-SHA256 computed directly with the protocol's salt and info.
    let hk = hkdf::Hkdf::<sha2::Sha256>::new(Some(&hkdf_salt_bytes()), &fake_shared);
    let mut direct = [0u8; 32];
    hk.expand(&hkdf_info_bytes(), &mut direct).unwrap();
    assert_eq!(key1, direct);
}

#[test]
fn cross_peer_keys_differ() {
    let (alice_sec, _alice_pub) = X25519KeyExchange::new_ephemeral();
    let (_bob_sec, bob_pub) = X25519KeyExchange::new_ephemeral();
    let key_ab_a = X25519KeyExchange::derive_aes_key(alice_sec, &bob_pub).expect("Alice 侧 derive_aes_key 不应失败");
    let (carol_sec, _carol_pub) = X25519KeyExchange::new_ephemeral();
    let (_dave_sec, dave_pub) = X25519KeyExchange::new_ephemeral();
    let key_cd_c = X25519KeyExchange::derive_aes_key(carol_sec, &dave_pub).expect("Carol 侧 derive_aes_key 不应失败");
    let (alice_sec2, alice_pub2) = X25519KeyExchange::new_ephemeral();
    let (bob_sec2, bob_pub2) = X25519KeyExchange::new_ephemeral();
    let key_ab_a2 = X25519KeyExchange::derive_aes_key(alice_sec2, &bob_pub2).expect("Alice2 侧 derive_aes_key 不应失败");
    let key_ab_b2 = X25519KeyExchange::derive_aes_key(bob_sec2, &alice_pub2).expect("Bob2 侧 derive_aes_key 不应失败");
    assert_eq!(key_ab_a2, key_ab_b2, "Alice-Bob 同一对 DH 两侧 derive 的 key 必须相等");
    assert_ne!(key_ab_a, key_cd_c, "不同 peer 对的 AES key 不应相等（跨 peer 密钥独立）");
}

#[test]
fn pubkey_from_b64_invalid_base64_errors() {
    let result = X25519KeyExchange::pubkey_from_b64("not_valid_base64!!!");
    assert!(matches!(result, Err(KeyExchangeError::Base64)), "无效 base64 应返 KeyExchangeError::Base64");
}

#[test]
fn pubkey_from_b64_wrong_length_errors() {
    let short_b64 = B64.encode([0u8; 16]);
    let result = X25519KeyExchange::pubkey_from_b64(&short_b64);
    assert!(matches!(result, Err(KeyExchangeError::Length)), "长度不足 32 字节应返 KeyExchangeError::Length");
}

// ---- further cases ----

#[test]
fn aad_magic_and_kind_bytes() {
    assert_eq!(aad_magic_bytes(), b"sync-copy-v2".to_vec());
    assert_eq!(AadKind::DeleteHistory.as_bytes(), b"delete_history".to_vec());
    assert_eq!(AadKind::ImagePng.as_bytes(), b"image_png".to_vec());
    assert_eq!(AadKind::Approval.as_bytes(), b"approval".to_vec());
}

#[test]
fn bad_nonce_and_bad_base64_errors() {
    let sealer = AesGcmSealer;
    let key = test_key();
    let aad = build_aad(AadKind::Text, "d", 1);
    let (_, ct_b64) = sealer.encrypt(&key, b"x", &aad).unwrap();
    let short_nonce = B64.encode([0u8; 8]);
    assert_eq!(sealer.decrypt(&key, &short_nonce, &ct_b64, &aad), Err(SealError::NonceLength));
    assert_eq!(sealer.decrypt(&key, "!!!", &ct_b64, &aad), Err(SealError::Base64));
}

#[test]
fn seal_with_fixed_nonce_is_deterministic_and_decrypts() {
    let sealer = AesGcmSealer;
    let key = test_key();
    let nonce = [7u8; 12];
    let aad = build_aad(AadKind::Leave, "d", 3);
    let a = sealer.seal_with_nonce(&key, &nonce, b"payload", &aad).unwrap();
    let b = sealer.seal_with_nonce(&key, &nonce, b"payload", &aad).unwrap();
    assert_eq!(a, b);
    assert_eq!(a.0, B64.encode(nonce));
    assert_eq!(sealer.decrypt(&key, &a.0, &a.1, &aad).unwrap(), b"payload".to_vec());
}

#[test]
fn error_messages() {
    assert_eq!(KeyExchangeError::Length.message(), "pubkey must be 32 bytes");
    assert_eq!(SealError::NonceLength.message(), "nonce must be 12 bytes");
}

#[test]
fn all_error_messages() {
    assert_eq!(KeyExchangeError::Base64.message(), "pubkey base64 decode failed");
    assert_eq!(KeyExchangeError::Hkdf.message(), "hkdf expand failed");
    assert_eq!(SealError::Base64.message(), "nonce/ciphertext base64 decode failed");
    assert_eq!(SealError::EncryptFailed.message(), "aead encrypt failed");
    assert_eq!(SealError::DecryptFailed.message(), "aead decrypt failed (key mismatch / aad mismatch / tampered)");
}

fn hex32(s: &str) -> [u8; 32] {
    let mut out = [0u8; 32];
    for i in 0..32 {
        out[i] = u8::from_str_radix(&s[2 * i..2 * i + 2], 16).unwrap();
    }
    out
}

#[test]
fn x25519_matches_rfc7748_vectors() {
    let alice = hex32("77076d0a7318a57d3c16c17251b26645df4c2f87ebc0992ab177fba51db92c2a");
    let bob = hex32("5dab087e624a8a4b79e17f8b83800ee66f3bb1292618b6fd1c2f8b27ff88e0eb");
    let alice_pub = hex32("8520f0098930a754748b7ddcb43ef75a0dbf3a0d26381af4eba4a98eaa9b4e6a");
    let bob_pub = hex32("de9edb7d7b7dc1b4d35b61c2ece435373f8343c85b78674dadfc7e146f882b4f");
    let shared = hex32("4a5d9d5ba4ce2de1728e3bf480350f25e07e21c947d19e3376f09b3c1e161742");
    assert_eq!(X25519Secret::from_bytes(alice).public_key(), alice_pub);
    assert_eq!(X25519Secret::from_bytes(bob).public_key(), bob_pub);
    let expected = X25519KeyExchange::derive_key_from_shared(&shared).unwrap();
    assert_eq!(X25519KeyExchange::derive_aes_key(X25519Secret::from_bytes(alice), &bob_pub).unwrap(), expected);
    assert_eq!(X25519KeyExchange::derive_aes_key(X25519Secret::from_bytes(bob), &alice_pub).unwrap(), expected);
    assert_ne!(expected, shared);
}

#[test]
fn new_ephemeral_public_key_belongs_to_its_secret() {
    let (secret, public) = X25519KeyExchange::new_ephemeral();
    assert_eq!(secret.public_key(), public);
    let (other, other_pub) = X25519KeyExchange::new_ephemeral();
    assert_ne!(public, other_pub);
    let k1 = X25519KeyExchange::derive_aes_key(secret, &other_pub).unwrap();
    let k2 = X25519KeyExchange::derive_aes_key(other, &public).unwrap();
    assert_eq!(k1, k2);
}
