use aes_gcm::aead::{Aead, KeyInit};
use aes_gcm::{Aes256Gcm, Key, Nonce};
use qwartz::zab_r::{
    decrypt_adaptive, decrypt_adaptive_with, encrypt_adaptive, encrypt_adaptive_with, ZABAdaptive,
};
use qwartz::QwartzError;
use sha3::{Digest, Sha3_256};

const PID: u32 = 4242;

fn seed(v: u8) -> [u8; 64] {
    [v; 64]
}

#[test]
fn test_key_derivation() {
    let key1 = ZABAdaptive::new(PID).unwrap();
    let key2 = ZABAdaptive::new(PID).unwrap();

    // Keys should be different (different entropy)
    let _k1 = key1.derive_key(b"test");
    let _k2 = key2.derive_key(b"test");

    // Note: Keys might match if entropy is similar, but unlikely
    // This is expected behavior for adaptive keys
}

#[test]
fn context_is_digest_of_seed_label_and_pid() {
    let a = ZABAdaptive::from_entropy(&seed(3), PID, 77);
    let mut h = Sha3_256::new();
    h.update(&seed(3));
    h.update(b"ZAB-R-Adaptive");
    h.update(&PID.to_le_bytes());
    let context: [u8; 32] = h.finalize().into();
    let exported = a.export_context();
    assert_eq!(exported.len(), 48);
    assert_eq!(exported[0..8], 77u64.to_le_bytes());
    assert_eq!(exported[8..16], 0u64.to_le_bytes());
    assert_eq!(exported[16..48], context);
}

#[test]
fn derive_key_is_deterministic_and_purpose_bound() {
    let a = ZABAdaptive::from_entropy(&seed(1), PID, 10);
    assert_eq!(a.derive_key(b"p"), a.derive_key(b"p"));
    assert_ne!(a.derive_key(b"p"), a.derive_key(b"q"));
}

#[test]
fn context_export_import_roundtrip() {
    let a = ZABAdaptive::from_entropy(&seed(5), PID, 99);
    let data = a.export_context();
    let b = ZABAdaptive::import_context(&data).unwrap();
    assert_eq!(b.export_context(), data);
    let mut longer = data.clone();
    longer.extend_from_slice(b"extra");
    assert_eq!(ZABAdaptive::import_context(&longer).unwrap().export_context(), data);
    match ZABAdaptive::import_context(&data[..47]) {
        Err(QwartzError::InvalidKey(m)) => assert_eq!(m, "Context too short"),
        _ => panic!("expected InvalidKey"),
    }
}

#[test]
fn evolve_counts_and_changes_context() {
    let mut a = ZABAdaptive::from_entropy(&seed(2), PID, 1);
    let before = a.export_context();
    a.evolve_with(&seed(9));
    let after = a.export_context();
    assert_eq!(after[0..8], before[0..8]);
    assert_eq!(after[8..16], 1u64.to_le_bytes());
    let mut h = Sha3_256::new();
    h.update(&before[16..48]);
    h.update(&seed(9));
    h.update(b"ZAB-R-Evolution");
    let expected: [u8; 32] = h.finalize().into();
    assert_eq!(after[16..48], expected);
    a.evolve();
    assert_eq!(a.export_context()[8..16], 2u64.to_le_bytes());
}

#[test]
fn verify_against_counts_agreeing_bytes() {
    let a = ZABAdaptive::from_entropy(&seed(4), PID, 0);
    let data = a.export_context();
    let mut expected = [0u8; 32];
    expected.copy_from_slice(&data[16..48]);
    assert!(a.verify_against(&expected));
    for b in expected.iter_mut().take(16) {
        *b = b.wrapping_add(1);
    }
    assert!(a.verify_against(&expected));
    expected[16] = expected[16].wrapping_add(1);
    assert!(!a.verify_against(&expected));
}

#[test]
fn test_adaptive_encrypt_decrypt() {
    let plaintext = b"Secret message for ZAB-R";
    let purpose = b"test-encryption";

    // `encrypt_adaptive` and `decrypt_adaptive` each draw their own fresh key,
    // so the round trip runs with one key handed to both sides.
    let key_manager = ZABAdaptive::new(PID).unwrap();
    let nonce = [3u8; 12];
    let ciphertext = encrypt_adaptive_with(&key_manager, plaintext, purpose, &nonce).unwrap();
    let decrypted = decrypt_adaptive_with(&key_manager, &ciphertext, purpose).unwrap();

    assert_eq!(plaintext.as_slice(), decrypted.as_slice());
}

#[test]
fn adaptive_ciphertext_layout() {
    let a = ZABAdaptive::from_entropy(&seed(6), PID, 0);
    let nonce = [5u8; 12];
    let p = b"Secret message for ZAB-R";
    let c = encrypt_adaptive_with(&a, p, b"test-encryption", &nonce).unwrap();
    assert_eq!(&c[0..7], b"ZAB-R01");
    assert_eq!(c[7..15], 0u64.to_le_bytes());
    assert_eq!(c[15..27], nonce);
    let key = a.derive_key(b"test-encryption");
    let cipher = Aes256Gcm::new(Key::<Aes256Gcm>::from_slice(&key));
    let expected = cipher.encrypt(Nonce::from_slice(&nonce), p.as_slice()).unwrap();
    assert_eq!(c[27..], expected[..]);
    assert_eq!(c.len(), p.len() + 43);
    let fresh = encrypt_adaptive(b"abc", b"p", PID).unwrap();
    assert_eq!(fresh.len(), 3 + 43);
}

#[test]
fn adaptive_decryption_checks_frame_purpose_and_key() {
    let a = ZABAdaptive::from_entropy(&seed(7), PID, 0);
    let c = encrypt_adaptive_with(&a, b"hello", b"purpose", &[1u8; 12]).unwrap();
    assert_eq!(decrypt_adaptive_with(&a, &c, b"purpose").unwrap(), b"hello".to_vec());
    let inputs: [&[u8]; 3] = [&c[..26], b"", b"ZAB-K01\0\0\0\0\0\0\0\0\0\0\0\0\0\0\0\0\0\0\0\0"];
    for input in inputs {
        match decrypt_adaptive_with(&a, input, b"purpose") {
            Err(QwartzError::InvalidKey(m)) => assert_eq!(m, "Invalid ZAB-R format"),
            _ => panic!("expected InvalidKey"),
        }
    }
    // Wrong purpose: another key, so the tag does not check.
    match decrypt_adaptive_with(&a, &c, b"other") {
        Err(QwartzError::DecryptionFailed(m)) => assert_eq!(m, "aead::Error"),
        _ => panic!("expected DecryptionFailed"),
    }
    // A key that has evolved past the ciphertext derives another key.
    let mut later = ZABAdaptive::from_entropy(&seed(7), PID, 0);
    later.evolve_with(&seed(1));
    assert!(matches!(
        decrypt_adaptive_with(&later, &c, b"purpose"),
        Err(QwartzError::DecryptionFailed(_))
    ));
    // A fresh key for the process is another key too.
    assert!(matches!(
        decrypt_adaptive(&c, b"purpose", PID),
        Err(QwartzError::DecryptionFailed(_))
    ));
    match decrypt_adaptive(b"short", b"purpose", PID) {
        Err(QwartzError::InvalidKey(m)) => assert_eq!(m, "Invalid ZAB-R format"),
        _ => panic!("expected InvalidKey"),
    }
}

#[test]
fn key_behind_the_ciphertext_catches_up_with_fresh_entropy() {
    let mut ahead = ZABAdaptive::from_entropy(&seed(8), PID, 0);
    ahead.evolve_with(&seed(2));
    ahead.evolve_with(&seed(3));
    let c = encrypt_adaptive_with(&ahead, b"later", b"purpose", &[9u8; 12]).unwrap();
    assert_eq!(c[7..15], 2u64.to_le_bytes());
    assert_eq!(decrypt_adaptive_with(&ahead, &c, b"purpose").unwrap(), b"later".to_vec());
    // The key at evolution 0 evolves twice with fresh seeds, not those above.
    let behind = ZABAdaptive::from_entropy(&seed(8), PID, 0);
    assert!(matches!(
        decrypt_adaptive_with(&behind, &c, b"purpose"),
        Err(QwartzError::DecryptionFailed(_))
    ));
}

#[test]
fn error_messages() {
    assert_eq!(
        QwartzError::InvalidKey("Invalid ZAB-R format".to_string()).message(),
        "Invalid key format: Invalid ZAB-R format"
    );
    assert_eq!(
        QwartzError::DecryptionFailed("aead::Error".to_string()).message(),
        "Decryption failed: aead::Error"
    );
    assert_eq!(QwartzError::EntropyUnavailable("x".to_string()).message(), "Entropy source unavailable: x");
    assert_eq!(QwartzError::KeyGenFailed("x".to_string()).message(), "Key generation failed: x");
    assert_eq!(QwartzError::EncryptionFailed("x".to_string()).message(), "Encryption failed: x");
    assert_eq!(QwartzError::SyncError("x".to_string()).message(), "Sync protocol error: x");
    assert_eq!(QwartzError::VerificationFailed.message(), "Verification failed");
}
