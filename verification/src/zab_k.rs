//! ZAB-K, the key-based mode: stored keys, their storage format, AES-256-GCM
//! encryption under them, and auto-mutation.

use crate::cipher::{
    aes256gcm_seal, gcm_accepts, lemma_opened_result_unique, lemma_sealed_opens, open_with,
    opened_result, seal_with, GcmCipher,
};
use crate::clock::unix_seconds;
use crate::digest::{sha3_256, sha3_256_digest, sha3_512, sha3_512_digest};
use crate::entropy::{seed_outcome, EntropyEngine};
use crate::frame::{block32, copy_range, lemma_three_parts, push_all};
use crate::{same_outcome, QwartzError};
use vstd::bytes::*;
use vstd::slice::slice_subrange;
use vstd::prelude::*;

verus! {

/// The kinds of ZAB-K key.
#[derive(Debug, Clone, Copy, PartialEq, Eq)]
pub enum KeyType {
    /// Symmetric key for AES-256-GCM.
    SymmetricAES,
    /// Symmetric key for ChaCha20-Poly1305.
    SymmetricChaCha,
    /// Hybrid educational key.
    HybridPQ,
}

/// The display name of a key type.
pub open spec fn key_type_name(t: KeyType) -> Seq<char> {
    match t {
        KeyType::SymmetricAES => "AES-256-GCM"@,
        KeyType::SymmetricChaCha => "ChaCha20-Poly1305"@,
        KeyType::HybridPQ => "ZAB-Hybrid"@,
    }
}

/// The byte that stands for a key type in the storage format.
pub open spec fn key_type_code(t: KeyType) -> u8 {
    match t {
        KeyType::SymmetricAES => 0x01,
        KeyType::SymmetricChaCha => 0x02,
        KeyType::HybridPQ => 0x03,
    }
}

/// The key type that a byte of the storage format stands for, if any.
pub open spec fn key_type_of_code(b: u8) -> Option<KeyType> {
    if b == 0x01 {
        Some(KeyType::SymmetricAES)
    } else if b == 0x02 {
        Some(KeyType::SymmetricChaCha)
    } else if b == 0x03 {
        Some(KeyType::HybridPQ)
    } else {
        None
    }
}

/// The number of key bytes that a new key of a type has.
pub open spec fn key_size(t: KeyType) -> nat {
    match t {
        KeyType::SymmetricAES => 32,
        KeyType::SymmetricChaCha => 32,
        KeyType::HybridPQ => 64,
    }
}

impl KeyType {
    /// The display name of the key type.
    pub fn as_str(&self) -> (name: &'static str)
        ensures
            name@ == key_type_name(*self),
    {
        match self {
            KeyType::SymmetricAES => "AES-256-GCM",
            KeyType::SymmetricChaCha => "ChaCha20-Poly1305",
            KeyType::HybridPQ => "ZAB-Hybrid",
        }
    }
}

/// A ZAB-K key.
pub struct ZABKey {
    /// The key material.
    pub key_material: Vec<u8>,
    /// The key type.
    pub key_type: KeyType,
    /// How often the key has mutated.
    pub mutations: u64,
    /// Creation time (seconds since the Unix epoch).
    pub created: u64,
    /// The key's fingerprint.
    pub fingerprint: [u8; 32],
}

/// The contents of a ZAB-K key.
pub struct ZABKeyView {
    pub key_material: Seq<u8>,
    pub key_type: KeyType,
    pub mutations: u64,
    pub created: u64,
    pub fingerprint: Seq<u8>,
}

impl View for ZABKey {
    type V = ZABKeyView;

    open spec fn view(&self) -> ZABKeyView {
        ZABKeyView {
            key_material: self.key_material@,
            key_type: self.key_type,
            mutations: self.mutations,
            created: self.created,
            fingerprint: self.fingerprint@,
        }
    }
}

/// A key's contents as a key can hold them: a fingerprint of 32 bytes.
pub open spec fn key_view_valid(k: ZABKeyView) -> bool {
    k.fingerprint.len() == 32
}

/// The seven bytes `ZAB-K01` that open an exported key.
pub open spec fn zab_k_magic() -> Seq<u8> {
    seq![0x5Au8, 0x41u8, 0x42u8, 0x2Du8, 0x4Bu8, 0x30u8, 0x31u8]
}

/// The storage form of a key: the magic, the type byte, the mutation counter and
/// the creation time (8 bytes each, little-endian), the fingerprint, the key material.
pub open spec fn exported_key(k: ZABKeyView) -> Seq<u8> {
    zab_k_magic() + seq![key_type_code(k.key_type)] + spec_u64_to_le_bytes(k.mutations)
        + spec_u64_to_le_bytes(k.created) + k.fingerprint + k.key_material
}

/// Whether a byte string opens like an exported key: at least 58 bytes, the magic first.
pub open spec fn key_format_ok(data: Seq<u8>) -> bool {
    data.len() >= 58 && data.subrange(0, 7) == zab_k_magic()
}

/// The key that an exported key of type `t` holds.
pub open spec fn decoded_key(data: Seq<u8>, t: KeyType) -> ZABKeyView {
    ZABKeyView {
        key_material: data.subrange(56, data.len() as int),
        key_type: t,
        mutations: spec_u64_from_le_bytes(data.subrange(8, 16)),
        created: spec_u64_from_le_bytes(data.subrange(16, 24)),
        fingerprint: data.subrange(24, 56),
    }
}

/// The nine bytes `ZAB-K-Key` hashed after the material into a new key's fingerprint.
pub open spec fn key_fingerprint_label() -> Seq<u8> {
    seq![0x5Au8, 0x41u8, 0x42u8, 0x2Du8, 0x4Bu8, 0x2Du8, 0x4Bu8, 0x65u8, 0x79u8]
}

/// The key that `generate` makes of a key type, a 64-byte seed and a creation
/// time: `key_size` bytes taken cyclically from the seed, no mutations, and the
/// SHA3-256 of the material followed by `ZAB-K-Key` as fingerprint.
pub open spec fn generated_key(t: KeyType, seed: Seq<u8>, created: u64) -> ZABKeyView {
    let material = Seq::new(key_size(t), |i: int| seed[i % 64]);
    ZABKeyView {
        key_material: material,
        key_type: t,
        mutations: 0,
        created,
        fingerprint: sha3_256(material + key_fingerprint_label()),
    }
}

/// The key that `mutate` makes of a key and 64 bytes of fresh entropy: the
/// counter goes up by one; the first `min(len, 64)` bytes of the material become
/// the SHA3-512 of the old material, the new counter (little-endian) and the
/// entropy; the fingerprint becomes the SHA3-256 of the new material and the counter.
pub open spec fn mutated_key(k: ZABKeyView, entropy: Seq<u8>) -> ZABKeyView {
    let count = (k.mutations + 1) as u64;
    let digest = sha3_512(k.key_material + spec_u64_to_le_bytes(count) + entropy);
    let material = Seq::new(
        k.key_material.len(),
        |i: int| if i < 64 { digest[i] } else { k.key_material[i] },
    );
    ZABKeyView {
        key_material: material,
        key_type: k.key_type,
        mutations: count,
        created: k.created,
        fingerprint: sha3_256(material + spec_u64_to_le_bytes(count)),
    }
}

/// The AES-256-GCM key of a key: its first 32 bytes.
pub open spec fn cipher_key(k: ZABKeyView) -> Seq<u8> {
    k.key_material.subrange(0, 32)
}

/// A message sealed under a key: the nonce, then the sealing of the plaintext.
pub open spec fn sealed_message(k: ZABKeyView, nonce: Seq<u8>, p: Seq<u8>) -> Seq<u8> {
    nonce + aes256gcm_seal(cipher_key(k), nonce, p)
}

/// What encrypting `p` under key `k` with `nonce` gives: `InvalidKey("Key too short")`
/// for material shorter than 32 bytes, `EncryptionFailed("aead::Error")` for a
/// plaintext that AES-GCM refuses, and else the sealed message, 28 bytes longer
/// than the plaintext (nonce and tag).
pub open spec fn encrypt_result(k: ZABKeyView, nonce: Seq<u8>, p: Seq<u8>, r: Result<Vec<u8>, QwartzError>) -> bool {
    if k.key_material.len() < 32 {
        r matches Err(QwartzError::InvalidKey(m)) && m@ == "Key too short"@
    } else if !gcm_accepts(p) {
        r matches Err(QwartzError::EncryptionFailed(m)) && m@ == "aead::Error"@
    } else {
        r matches Ok(c) && c@ == sealed_message(k, nonce, p) && c@.len() == p.len() + 28
    }
}

/// What decrypting a message under key `k` gives: `InvalidKey("Ciphertext too short")`
/// for a message shorter than 12 bytes, `InvalidKey("Key too short")` for material
/// shorter than 32 bytes; else, with the first 12 bytes as nonce, what opening
/// the rest gives (see `opened_result`).
pub open spec fn decrypt_result(k: ZABKeyView, message: Seq<u8>, r: Result<Vec<u8>, QwartzError>) -> bool {
    if message.len() < 12 {
        r matches Err(QwartzError::InvalidKey(m)) && m@ == "Ciphertext too short"@
    } else if k.key_material.len() < 32 {
        r matches Err(QwartzError::InvalidKey(m)) && m@ == "Key too short"@
    } else {
        opened_result(cipher_key(k), message.subrange(0, 12), message.subrange(12, message.len() as int), r)
    }
}

impl ZABKey {
    /// The key's contents are well formed.
    pub proof fn lemma_valid(&self)
        ensures
            key_view_valid(self@),
    {
    }


    /// A new key from a key type, a 64-byte seed and a creation time (see `generated_key`).
    pub fn generate_from(key_type: KeyType, seed: &[u8; 64], created: u64) -> (k: ZABKey)
        ensures
            k@ == generated_key(key_type, seed@, created),
    {
        let size: usize = match key_type {
            KeyType::SymmetricAES => 32,
            KeyType::SymmetricChaCha => 32,
            KeyType::HybridPQ => 64,
        };
        let mut key_material: Vec<u8> = Vec::new();
        let mut i: usize = 0;
        while i < size
            invariant
                i <= size,
                size == key_size(key_type),
                key_material@ =~= Seq::new(i as nat, |j: int| seed@[j % 64]),
            decreases size - i,
        {
            key_material.push(seed[i % 64]);
            i += 1;
        }
        let mut hashed: Vec<u8> = Vec::new();
        push_all(&mut hashed, key_material.as_slice());
        let label: [u8; 9] = [0x5A, 0x41, 0x42, 0x2D, 0x4B, 0x2D, 0x4B, 0x65, 0x79];
        assert(label@ =~= key_fingerprint_label());
        push_all(&mut hashed, label.as_slice());
        let digest = sha3_256_digest(hashed.as_slice());
        let fingerprint = block32(digest.as_slice(), 0);
        assert(digest@.subrange(0, 32) =~= digest@);
        ZABKey { key_material, key_type, mutations: 0, created, fingerprint }
    }

    /// A new key of a type, from a fresh seed, stamped with the wall clock in
    /// seconds. Always succeeds.
    pub fn generate(key_type: KeyType) -> (r: Result<ZABKey, QwartzError>)
        ensures
            r matches Ok(k) && exists|seed: Seq<u8>|
                seed_outcome(seed) && #[trigger] generated_key(key_type, seed, k@.created) == k@,
            r matches Ok(k) && k@.key_material.len() == key_size(key_type),
    {
        let seed = EntropyEngine::generate_seed();
        let created = unix_seconds();
        let k = Self::generate_from(key_type, &seed, created);
        assert(generated_key(key_type, seed@, k@.created) == k@);
        Ok(k)
    }

    /// The AES-256-GCM cipher of the key's first 32 bytes; `InvalidKey("Key too short")`
    /// for shorter material.
    pub fn get_cipher(&self) -> (r: Result<GcmCipher, QwartzError>)
        ensures
            self@.key_material.len() < 32 ==> (r matches Err(QwartzError::InvalidKey(m)) && m@
                == "Key too short"@),
            self@.key_material.len() >= 32 ==> (r matches Ok(c) && c@ == cipher_key(self@)),
            self@.key_material.len() >= 32 ==> (r matches Ok(c) && c@ == self@.key_material.subrange(0, 32)),
    {
        if self.key_material.len() < 32 {
            return Err(QwartzError::InvalidKey(String::from_str("Key too short")));
        }
        let key = block32(self.key_material.as_slice(), 0);
        Ok(GcmCipher::new(key))
    }

    /// Encrypts `plaintext` under the key with the given nonce (see `encrypt_result`).
    pub fn encrypt_with_nonce(&self, plaintext: &[u8], nonce: &[u8; 12]) -> (r: Result<Vec<u8>, QwartzError>)
        ensures
            encrypt_result(self@, nonce@, plaintext@, r),
    {
        let cipher = match self.get_cipher() {
            Ok(c) => c,
            Err(e) => {
                return Err(e);
            },
        };
        let mut result: Vec<u8> = Vec::new();
        push_all(&mut result, nonce.as_slice());
        match seal_with(&cipher, nonce, plaintext) {
            Ok(ciphertext) => {
                push_all(&mut result, ciphertext.as_slice());
                Ok(result)
            },
            Err(e) => Err(e),
        }
    }

    /// Encrypts `plaintext` under the key, with the first 12 bytes of a fresh seed
    /// as nonce; the nonce opens the result.
    pub fn encrypt(&self, plaintext: &[u8]) -> (r: Result<Vec<u8>, QwartzError>)
        ensures
            exists|seed: Seq<u8>| seed_outcome(seed) && #[trigger] encrypt_result(
                self@,
                seed.subrange(0, 12),
                plaintext@,
                r,
            ),
    {
        let entropy = EntropyEngine::generate_seed();
        let mut nonce: [u8; 12] = [0u8; 12];
        let mut i: usize = 0;
        while i < 12
            invariant
                i <= 12,
                forall|j: int| 0 <= j < i ==> nonce@[j] == entropy@[j],
            decreases 12 - i,
        {
            nonce[i] = entropy[i % 64];
            i += 1;
        }
        assert(nonce@ =~= entropy@.subrange(0, 12));
        self.encrypt_with_nonce(plaintext, &nonce)
    }

    /// Decrypts a message made by `encrypt` (see `decrypt_result`).
    pub fn decrypt(&self, ciphertext: &[u8]) -> (r: Result<Vec<u8>, QwartzError>)
        ensures
            decrypt_result(self@, ciphertext@, r),
    {
        if ciphertext.len() < 12 {
            return Err(QwartzError::InvalidKey(String::from_str("Ciphertext too short")));
        }
        let mut nonce: [u8; 12] = [0u8; 12];
        let mut i: usize = 0;
        while i < 12
            invariant
                i <= 12,
                ciphertext@.len() >= 12,
                forall|j: int| 0 <= j < i ==> nonce@[j] == ciphertext@[j],
            decreases 12 - i,
        {
            nonce[i] = ciphertext[i];
            i += 1;
        }
        assert(nonce@ =~= ciphertext@.subrange(0, 12));
        let ct = slice_subrange(ciphertext, 12, ciphertext.len());
        let cipher = match self.get_cipher() {
            Ok(c) => c,
            Err(e) => {
                return Err(e);
            },
        };
        open_with(&cipher, &nonce, ct)
    }

    /// Mutates the key with 64 bytes of entropy (see `mutated_key`).
    pub fn mutate_with(&mut self, entropy: &[u8; 64])
        requires
            old(self)@.mutations < u64::MAX,
        ensures
            final(self)@ == mutated_key(old(self)@, entropy@),
    {
        let ghost before = self@;
        self.mutations = self.mutations + 1;
        let counter = u64_to_le_bytes(self.mutations);
        let mut input: Vec<u8> = Vec::new();
        push_all(&mut input, self.key_material.as_slice());
        push_all(&mut input, counter.as_slice());
        push_all(&mut input, entropy.as_slice());
        let new_key = sha3_512_digest(input.as_slice());
        let n: usize = if self.key_material.len() < new_key.len() {
            self.key_material.len()
        } else {
            new_key.len()
        };
        let mut i: usize = 0;
        while i < n
            invariant
                i <= n,
                n <= self.key_material@.len(),
                n <= 64,
                new_key@.len() == 64,
                self.key_material@.len() == before.key_material.len(),
                self.key_type == before.key_type,
                self.created == before.created,
                self.mutations == before.mutations + 1,
                forall|j: int| 0 <= j < i ==> self.key_material@[j] == new_key@[j],
                forall|j: int| i <= j < self.key_material@.len() ==> self.key_material@[j]
                    == before.key_material[j],
            decreases n - i,
        {
            self.key_material.set(i, new_key[i]);
            i += 1;
        }
        let mut fp_input: Vec<u8> = Vec::new();
        push_all(&mut fp_input, self.key_material.as_slice());
        push_all(&mut fp_input, counter.as_slice());
        let fp = sha3_256_digest(fp_input.as_slice());
        self.fingerprint = block32(fp.as_slice(), 0);
        assert(fp@.subrange(0, 32) =~= fp@);
        let ghost want = mutated_key(before, entropy@);
        assert(self.key_material@ =~= want.key_material);
        assert(counter@ == spec_u64_to_le_bytes(want.mutations));
        assert(fp_input@ =~= want.key_material + spec_u64_to_le_bytes(want.mutations));
        assert(self.fingerprint@ =~= want.fingerprint);
        assert(self@ == want);
    }

    /// Mutates the key with a fresh seed: the counter goes up by one and the
    /// material and fingerprint are re-derived (see `mutated_key`).
    pub fn mutate(&mut self)
        requires
            old(self)@.mutations < u64::MAX,
        ensures
            exists|seed: Seq<u8>| seed_outcome(seed) && #[trigger] mutated_key(old(self)@, seed)
                == final(self)@,
    {
        let entropy = EntropyEngine::generate_seed();
        self.mutate_with(&entropy);
    }

    /// The key's fingerprint.
    pub fn fingerprint(&self) -> (fp: [u8; 32])
        ensures
            fp@ == self@.fingerprint,
    {
        self.fingerprint
    }

    /// The key's storage form (see `exported_key`).
    pub fn export(&self) -> (out: Vec<u8>)
        ensures
            out@ == exported_key(self@),
    {
        let mut out: Vec<u8> = Vec::new();
        out.push(0x5A);
        out.push(0x41);
        out.push(0x42);
        out.push(0x2D);
        out.push(0x4B);
        out.push(0x30);
        out.push(0x31);
        let code: u8 = match self.key_type {
            KeyType::SymmetricAES => 0x01,
            KeyType::SymmetricChaCha => 0x02,
            KeyType::HybridPQ => 0x03,
        };
        out.push(code);
        let m = u64_to_le_bytes(self.mutations);
        push_all(&mut out, m.as_slice());
        let c = u64_to_le_bytes(self.created);
        push_all(&mut out, c.as_slice());
        push_all(&mut out, self.fingerprint.as_slice());
        push_all(&mut out, self.key_material.as_slice());
        assert(out@ =~= exported_key(self@));
        out
    }

    /// Reads a key from its storage form. Fails with `InvalidKey` when the data is
    /// shorter than 58 bytes or does not open with `ZAB-K01` ("Invalid ZAB-K format"),
    /// and when the type byte is not 1, 2 or 3 ("Unknown key type").
    pub fn import(data: &[u8]) -> (r: Result<ZABKey, QwartzError>)
        ensures
            !key_format_ok(data@) ==> (r matches Err(QwartzError::InvalidKey(m)) && m@
                == "Invalid ZAB-K format"@),
            key_format_ok(data@) && key_type_of_code(data@[7]) is None ==> (r matches Err(
                QwartzError::InvalidKey(m),
            ) && m@ == "Unknown key type"@),
            key_format_ok(data@) && key_type_of_code(data@[7]) is Some ==> (r matches Ok(k) && k@
                == decoded_key(data@, key_type_of_code(data@[7]).unwrap())),
    {
        let n: usize = data.len();
        let magic_ok = n >= 58 && data[0] == 0x5A && data[1] == 0x41 && data[2] == 0x42 && data[3]
            == 0x2D && data[4] == 0x4B && data[5] == 0x30 && data[6] == 0x31;
        proof {
            if n >= 58 {
                assert(magic_ok == (data@.subrange(0, 7) =~= zab_k_magic()));
            }
        }
        if !magic_ok {
            return Err(QwartzError::InvalidKey(String::from_str("Invalid ZAB-K format")));
        }
        let key_type = match data[7] {
            0x01 => KeyType::SymmetricAES,
            0x02 => KeyType::SymmetricChaCha,
            0x03 => KeyType::HybridPQ,
            _ => {
                return Err(QwartzError::InvalidKey(String::from_str("Unknown key type")));
            },
        };
        let mutations = u64_from_le_bytes(slice_subrange(data, 8, 16));
        let created = u64_from_le_bytes(slice_subrange(data, 16, 24));
        let fingerprint = block32(data, 24);
        let key_material = copy_range(data, 56, n);
        let k = ZABKey { key_material, key_type, mutations, created, fingerprint };
        assert(k@ == decoded_key(data@, key_type_of_code(data@[7]).unwrap()));
        Ok(k)
    }
}

/// Reading back a stored key gives the key again: for every key whose material
/// has at least two bytes, its storage form is accepted by `import`, which
/// rebuilds exactly the same key.
pub proof fn lemma_export_import(k: ZABKeyView)
    requires
        key_view_valid(k),
        k.key_material.len() >= 2,
    ensures
        key_format_ok(exported_key(k)),
        key_type_of_code(exported_key(k)[7]) == Some(k.key_type),
        decoded_key(exported_key(k), k.key_type) == k,
{
    lemma_auto_spec_u64_to_from_le_bytes();
    let d = exported_key(k);
    let m = spec_u64_to_le_bytes(k.mutations);
    let c = spec_u64_to_le_bytes(k.created);
    assert(d.subrange(0, 7) =~= zab_k_magic());
    assert(d.subrange(8, 16) =~= m);
    assert(d.subrange(16, 24) =~= c);
    assert(d.subrange(24, 56) =~= k.fingerprint);
    assert(d.subrange(56, d.len() as int) =~= k.key_material);
}

/// Storing a key read from bytes gives the same bytes: every byte string that
/// `import` accepts is exactly the storage form of the key it yields.
pub proof fn lemma_import_export(data: Seq<u8>)
    requires
        key_format_ok(data),
        key_type_of_code(data[7]) is Some,
    ensures
        exported_key(decoded_key(data, key_type_of_code(data[7]).unwrap())) == data,
{
    lemma_auto_spec_u64_to_from_le_bytes();
    let k = decoded_key(data, key_type_of_code(data[7]).unwrap());
    assert(data.subrange(8, 16).len() == 8);
    assert(spec_u64_to_le_bytes(spec_u64_from_le_bytes(data.subrange(8, 16))) == data.subrange(8, 16));
    assert(spec_u64_to_le_bytes(spec_u64_from_le_bytes(data.subrange(16, 24))) == data.subrange(16, 24));
    assert(data.subrange(0, 7) == zab_k_magic());
    assert(exported_key(k) =~= data);
}

} // verus!

verus! {

/// Encrypts `plaintext` under `key` (as `ZABKey::encrypt`).
pub fn encrypt_keybased(plaintext: &[u8], key: &ZABKey) -> (r: Result<Vec<u8>, QwartzError>)
    ensures
        exists|seed: Seq<u8>| seed_outcome(seed) && #[trigger] encrypt_result(
            key@,
            seed.subrange(0, 12),
            plaintext@,
            r,
        ),
{
    key.encrypt(plaintext)
}

/// Decrypts `ciphertext` under `key` (as `ZABKey::decrypt`).
pub fn decrypt_keybased(ciphertext: &[u8], key: &ZABKey) -> (r: Result<Vec<u8>, QwartzError>)
    ensures
        decrypt_result(key@, ciphertext@, r),
{
    key.decrypt(ciphertext)
}

/// Decryption undoes encryption: under a key of at least 32 bytes, whatever
/// nonce was used, the message that encrypting a plaintext AES-GCM accepts gives
/// decrypts to that plaintext.
pub proof fn lemma_encrypt_decrypt(
    k: ZABKeyView,
    nonce: Seq<u8>,
    p: Seq<u8>,
    sealed: Result<Vec<u8>, QwartzError>,
    opened: Result<Vec<u8>, QwartzError>,
)
    requires
        k.key_material.len() >= 32,
        nonce.len() == 12,
        gcm_accepts(p),
        encrypt_result(k, nonce, p, sealed),
        sealed matches Ok(c) && decrypt_result(k, c@, opened),
    ensures
        opened matches Ok(q) && q@ == p,
{
    let c = sealed->Ok_0@;
    let body = aes256gcm_seal(cipher_key(k), nonce, p);
    assert(c.subrange(0, 12) =~= nonce);
    assert(c.subrange(12, c.len() as int) =~= body);
    lemma_sealed_opens(cipher_key(k), nonce, p, opened);
}

/// Encryption seals under the first 32 bytes of the key material: for a key of
/// at least 32 bytes and a plaintext AES-GCM accepts, the message is the nonce
/// followed by the AES-256-GCM sealing of the plaintext under those 32 bytes.
pub proof fn lemma_encrypt_uses_leading_key_bytes(
    k: ZABKeyView,
    nonce: Seq<u8>,
    p: Seq<u8>,
    r: Result<Vec<u8>, QwartzError>,
)
    requires
        k.key_material.len() >= 32,
        gcm_accepts(p),
        encrypt_result(k, nonce, p, r),
    ensures
        r matches Ok(c) && c@ == nonce + aes256gcm_seal(k.key_material.subrange(0, 32), nonce, p),
{
}

/// Decryption opens under the first 32 bytes of the key material: for a key of
/// at least 32 bytes and a message of at least 12, the result is what AES-256-GCM
/// opening of the bytes after the first 12 gives under those 32 bytes, with the
/// first 12 bytes as nonce.
pub proof fn lemma_decrypt_uses_leading_key_bytes(k: ZABKeyView, message: Seq<u8>, r: Result<Vec<u8>, QwartzError>)
    requires
        k.key_material.len() >= 32,
        message.len() >= 12,
        decrypt_result(k, message, r),
    ensures
        opened_result(k.key_material.subrange(0, 32), message.subrange(0, 12), message.subrange(
            12,
            message.len() as int,
        ), r),
{
}

/// Mutation re-hashes the old material: given the byte string made of the old
/// material, the new counter (8 bytes, little-endian) and the 64 bytes of
/// entropy, the first `min(len, 64)` bytes of the new material are its SHA3-512
/// and the rest stay; the counter goes up by one, the length, type and creation
/// time stay, and the fingerprint is the SHA3-256 of the new material and counter.
pub proof fn lemma_mutation_rehashes_old_material(k: ZABKeyView, entropy: Seq<u8>, input: Seq<u8>)
    requires
        k.mutations < u64::MAX,
        entropy.len() == 64,
        input.len() == k.key_material.len() + 72,
        input.subrange(0, k.key_material.len() as int) == k.key_material,
        input.subrange(k.key_material.len() as int, k.key_material.len() + 8int)
            == spec_u64_to_le_bytes((k.mutations + 1) as u64),
        input.subrange(k.key_material.len() + 8int, input.len() as int) == entropy,
    ensures
        ({
            let m = mutated_key(k, entropy);
            &&& m.mutations == k.mutations + 1
            &&& m.key_material.len() == k.key_material.len()
            &&& m.key_type == k.key_type
            &&& m.created == k.created
            &&& forall|i: int|
                0 <= i < k.key_material.len() && i < 64 ==> #[trigger] m.key_material[i] == sha3_512(input)[i]
            &&& forall|i: int| 64 <= i < k.key_material.len() ==> #[trigger] m.key_material[i] == k.key_material[i]
            &&& m.fingerprint == sha3_256(m.key_material + spec_u64_to_le_bytes(m.mutations))
        }),
{
    let n = k.key_material.len() as int;
    let le = spec_u64_to_le_bytes((k.mutations + 1) as u64);
    lemma_auto_spec_u64_to_from_le_bytes();
    assert(le.len() == 8);
    assert(input =~= k.key_material + le + entropy) by {
        assert forall|i: int| 0 <= i < input.len() implies input[i] == (k.key_material + le + entropy)[i] by {
            if i < n {
                assert(input[i] == input.subrange(0, n)[i]);
            } else if i < n + 8 {
                assert(input[i] == input.subrange(n, n + 8)[i - n]);
            } else {
                assert(input[i] == input.subrange(n + 8, input.len() as int)[i - n - 8]);
            }
        }
    }
}

/// A new key from a 64-byte seed: a HybridPQ key holds the whole seed, the
/// other types its first 32 bytes; no mutations, the given creation time, and
/// as fingerprint the SHA3-256 of the material followed by the nine bytes
/// `ZAB-K-Key`.
pub proof fn lemma_generated_key_from_seed(t: KeyType, seed: Seq<u8>, created: u64, input: Seq<u8>)
    requires
        seed.len() == 64,
        t == KeyType::HybridPQ ==> input.len() == 73 && input.subrange(0, 64) == seed,
        t != KeyType::HybridPQ ==> input.len() == 41 && input.subrange(0, 32) == seed.subrange(0, 32),
        input.subrange(input.len() - 9, input.len() as int) == seq![0x5Au8, 0x41u8, 0x42u8, 0x2Du8, 0x4Bu8, 0x2Du8, 0x4Bu8, 0x65u8, 0x79u8],
    ensures
        ({
            let k = generated_key(t, seed, created);
            &&& t == KeyType::HybridPQ ==> k.key_material == seed
            &&& t != KeyType::HybridPQ ==> k.key_material == seed.subrange(0, 32)
            &&& k.key_type == t
            &&& k.mutations == 0
            &&& k.created == created
            &&& k.fingerprint == sha3_256(input)
        }),
{
    let k = generated_key(t, seed, created);
    let n = input.len() - 9;
    if t == KeyType::HybridPQ {
        assert(k.key_material =~= seed);
    } else {
        assert(k.key_material =~= seed.subrange(0, 32));
    }
    assert(input.subrange(n, input.len() as int) =~= key_fingerprint_label());
    assert(input.subrange(0, n) == k.key_material);
    assert(input.subrange(input.len() as int, input.len() as int) =~= Seq::<u8>::empty());
    lemma_three_parts(input, k.key_material, key_fingerprint_label(), Seq::<u8>::empty());
    assert(k.key_material + key_fingerprint_label() + Seq::<u8>::empty() =~= k.key_material
        + key_fingerprint_label());
}

/// The layout of an exported key: the bytes `ZAB-K01`, the type byte (1 for
/// AES, 2 for ChaCha, 3 for HybridPQ), the mutation counter and the creation
/// time (8 bytes each, little-endian), the 32-byte fingerprint, then the material.
pub proof fn lemma_exported_key_layout(k: ZABKeyView)
    requires
        key_view_valid(k),
    ensures
        ({
            let d = exported_key(k);
            &&& d.len() == 56 + k.key_material.len()
            &&& d.subrange(0, 7) == seq![0x5Au8, 0x41u8, 0x42u8, 0x2Du8, 0x4Bu8, 0x30u8, 0x31u8]
            &&& d[7] == (match k.key_type {
                KeyType::SymmetricAES => 1u8,
                KeyType::SymmetricChaCha => 2u8,
                KeyType::HybridPQ => 3u8,
            })
            &&& d.subrange(8, 16) == spec_u64_to_le_bytes(k.mutations)
            &&& d.subrange(16, 24) == spec_u64_to_le_bytes(k.created)
            &&& d.subrange(24, 56) == k.fingerprint
            &&& d.subrange(56, d.len() as int) == k.key_material
        }),
{
    lemma_auto_spec_u64_to_from_le_bytes();
    let d = exported_key(k);
    assert(spec_u64_to_le_bytes(k.mutations).len() == 8);
    assert(spec_u64_to_le_bytes(k.created).len() == 8);
    assert(d.subrange(0, 7) =~= seq![0x5Au8, 0x41u8, 0x42u8, 0x2Du8, 0x4Bu8, 0x30u8, 0x31u8]);
    assert(d.subrange(8, 16) =~= spec_u64_to_le_bytes(k.mutations));
    assert(d.subrange(16, 24) =~= spec_u64_to_le_bytes(k.created));
    assert(d.subrange(24, 56) =~= k.fingerprint);
    assert(d.subrange(56, d.len() as int) =~= k.key_material);
}

/// Decryption is a function of the key and the message: two results that both
/// meet `decrypt_result` for them are the same (so `decrypt_keybased` gives what
/// `ZABKey::decrypt` gives).
pub proof fn lemma_decrypt_result_unique(
    k: ZABKeyView,
    message: Seq<u8>,
    r1: Result<Vec<u8>, QwartzError>,
    r2: Result<Vec<u8>, QwartzError>,
)
    requires
        decrypt_result(k, message, r1),
        decrypt_result(k, message, r2),
    ensures
        same_outcome(r1, r2),
{
    if message.len() >= 12 && k.key_material.len() >= 32 {
        lemma_opened_result_unique(
            cipher_key(k),
            message.subrange(0, 12),
            message.subrange(12, message.len() as int),
            r1,
            r2,
        );
    }
}

} // verus!
