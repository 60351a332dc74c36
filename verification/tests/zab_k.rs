use aes_gcm::aead::{Aead, KeyInit};
use aes_gcm::{Aes256Gcm, Key, Nonce};
use qwartz::zab_k::{decrypt_keybased, encrypt_keybased, KeyType, ZABKey};
use qwartz::QwartzError;
use sha3::{Digest, Sha3_256};

fn invalid_key_text(r: Result<impl Sized, QwartzError>) -> String {
    match r {
        Err(QwartzError::InvalidKey(m)) => m,
        _ => panic!("expected InvalidKey"),
    }
}

#[test]
fn test_key_generation() {
    let key = ZABKey::generate(KeyType::SymmetricAES).unwrap();
    assert_eq!(key.key_material.len(), 32);
}

#[test]
fn test_encrypt_decrypt() {
    let key = ZABKey::generate(KeyType::SymmetricAES).unwrap();
    let plaintext = b"Secret message";

    let ciphertext = key.encrypt(plaintext).unwrap();
    let decrypted = key.decrypt(&ciphertext).unwrap();

    assert_eq!(plaintext.as_slice(), decrypted.as_slice());
}

#[test]
fn test_mutation() {
    let mut key = ZABKey::generate(KeyType::SymmetricAES).unwrap();
    let fp1 = key.fingerprint();

    key.mutate();
    let fp2 = key.fingerprint();

    // Fingerprint should change after mutation
    assert_ne!(fp1, fp2);
}

#[test]
fn key_sizes_by_type() {
    assert_eq!(ZABKey::generate(KeyType::SymmetricChaCha).unwrap().key_material.len(), 32);
    assert_eq!(ZABKey::generate(KeyType::HybridPQ).unwrap().key_material.len(), 64);
}

#[test]
fn key_type_names() {
    assert_eq!(KeyType::SymmetricAES.as_str(), "AES-256-GCM");
    assert_eq!(KeyType::SymmetricChaCha.as_str(), "ChaCha20-Poly1305");
    assert_eq!(KeyType::HybridPQ.as_str(), "ZAB-Hybrid");
}

fn sample_seed() -> [u8; 64] {
    let mut seed = [0u8; 64];
    for (i, b) in seed.iter_mut().enumerate() {
        *b = i as u8;
    }
    seed
}

#[test]
fn generated_key_material_and_fingerprint() {
    let seed = sample_seed();
    let key = ZABKey::generate_from(KeyType::HybridPQ, &seed, 1234);
    assert_eq!(key.key_material, seed.to_vec());
    let mut hasher = Sha3_256::new();
    hasher.update(&seed);
    hasher.update(b"ZAB-K-Key");
    let expected: [u8; 32] = hasher.finalize().into();
    assert_eq!(key.fingerprint(), expected);
    let aes = ZABKey::generate_from(KeyType::SymmetricAES, &seed, 1234);
    assert_eq!(aes.key_material, seed[..32].to_vec());
}

#[test]
fn export_layout_and_import_roundtrip() {
    let key = ZABKey::generate_from(KeyType::SymmetricChaCha, &sample_seed(), 0x0102);
    let data = key.export();
    assert_eq!(&data[0..7], b"ZAB-K01");
    assert_eq!(data[7], 0x02);
    assert_eq!(data[8..16], 0u64.to_le_bytes());
    assert_eq!(data[16..24], 0x0102u64.to_le_bytes());
    assert_eq!(data[24..56], key.fingerprint());
    assert_eq!(data[56..], key.key_material[..]);
    assert_eq!(data.len(), 56 + 32);
    let back = ZABKey::import(&data).unwrap();
    assert_eq!(back.export(), data);
    assert_eq!(back.key_material, key.key_material);
    assert_eq!(back.fingerprint(), key.fingerprint());
}

#[test]
fn import_rejects_bad_data() {
    assert_eq!(invalid_key_text(ZABKey::import(b"ZAB-K01")), "Invalid ZAB-K format");
    let mut data = ZABKey::generate_from(KeyType::SymmetricAES, &sample_seed(), 5).export();
    data[0] = b'X';
    assert_eq!(invalid_key_text(ZABKey::import(&data)), "Invalid ZAB-K format");
    data[0] = b'Z';
    data[7] = 0x09;
    assert_eq!(invalid_key_text(ZABKey::import(&data)), "Unknown key type");
    // 57 bytes are too short even with a good header
    let short = &data[..57];
    let mut short = short.to_vec();
    short[7] = 0x01;
    assert_eq!(invalid_key_text(ZABKey::import(&short)), "Invalid ZAB-K format");
    short.push(0);
    assert!(ZABKey::import(&short).is_ok());
}

#[test]
fn encrypt_matches_aes_gcm() {
    let key = ZABKey::generate_from(KeyType::SymmetricAES, &sample_seed(), 0);
    let nonce = [9u8; 12];
    let sealed = key.encrypt_with_nonce(b"hello", &nonce).unwrap();
    let cipher = Aes256Gcm::new(Key::<Aes256Gcm>::from_slice(&sample_seed()[..32]));
    let expected = cipher.encrypt(Nonce::from_slice(&nonce), b"hello".as_slice()).unwrap();
    assert_eq!(&sealed[..12], &nonce);
    assert_eq!(&sealed[12..], expected.as_slice());
    assert_eq!(sealed.len(), 12 + 5 + 16);
    assert_eq!(key.decrypt(&sealed).unwrap(), b"hello".to_vec());
}

#[test]
fn keybased_roundtrip_and_errors() {
    let key = ZABKey::generate_from(KeyType::SymmetricAES, &sample_seed(), 0);
    let c = encrypt_keybased(b"abc", &key).unwrap();
    assert_eq!(decrypt_keybased(&c, &key).unwrap(), b"abc".to_vec());

    assert_eq!(invalid_key_text(decrypt_keybased(&[0u8; 11], &key)), "Ciphertext too short");

    let mut tampered = c.clone();
    let last = tampered.len() - 1;
    tampered[last] ^= 1;
    match decrypt_keybased(&tampered, &key) {
        Err(QwartzError::DecryptionFailed(m)) => assert_eq!(m, "aead::Error"),
        _ => panic!("expected DecryptionFailed"),
    }

    // A message with fewer than 16 bytes after the nonce holds no tag.
    match decrypt_keybased(&[0u8; 27], &key) {
        Err(QwartzError::DecryptionFailed(m)) => assert_eq!(m, "aead::Error"),
        _ => panic!("expected DecryptionFailed"),
    }
    assert_eq!(key.decrypt(&c).unwrap(), decrypt_keybased(&c, &key).unwrap());
    assert_eq!(c.len(), 3 + 28);

    // A key whose material is two bytes long cannot make a cipher.
    let mut data = key.export();
    data.truncate(58);
    let short_key = ZABKey::import(&data).unwrap();
    assert_eq!(invalid_key_text(short_key.get_cipher()), "Key too short");
    assert_eq!(invalid_key_text(short_key.encrypt(b"x")), "Key too short");
    assert_eq!(invalid_key_text(short_key.decrypt(&[0u8; 40])), "Key too short");
}

#[test]
fn mutation_counts_and_rederives() {
    let seed = sample_seed();
    let mut key = ZABKey::generate_from(KeyType::HybridPQ, &seed, 0);
    let before = key.key_material.clone();
    key.mutate_with(&[1u8; 64]);
    let data = key.export();
    assert_eq!(data[8..16], 1u64.to_le_bytes());
    assert_eq!(key.key_material.len(), 64);
    assert_ne!(key.key_material, before);
    let mut hasher = Sha3_256::new();
    hasher.update(&key.key_material);
    hasher.update(&1u64.to_le_bytes());
    let expected: [u8; 32] = hasher.finalize().into();
    assert_eq!(key.fingerprint(), expected);
}
