//! AES-256-GCM, computed by the `aes-gcm` crate.

use aes_gcm::aead::{Aead, KeyInit};
use aes_gcm::{Aes256Gcm, Key, Nonce};
use crate::{same_outcome, QwartzError};
use vstd::prelude::*;

verus! {

/// `aes_gcm::Error` (the `aead` crate's opaque error).
#[verifier::external_type_specification]
#[verifier::external_body]
pub struct ExAeadError(aes_gcm::Error);

/// The longest plaintext that `aes-gcm` encrypts: 2^36 bytes (`P_MAX`).
pub const GCM_MAX_PLAINTEXT: u64 = 68719476736;

/// The AES-256-GCM sealing of `plaintext` under `key` and `nonce`, without
/// associated data, as the `aes-gcm` crate computes it: the ciphertext followed
/// by the 16-byte tag.
pub uninterp spec fn aes256gcm_seal(key: Seq<u8>, nonce: Seq<u8>, plaintext: Seq<u8>) -> Seq<u8>;

/// Whether `aes-gcm` encrypts a plaintext: at most `P_MAX` bytes.
pub open spec fn gcm_accepts(plaintext: Seq<u8>) -> bool {
    GCM_MAX_PLAINTEXT >= plaintext.len()
}

/// What AES-256-GCM decryption of `sealed` (cipher text then 16-byte tag) under
/// `key` and `nonce`, without associated data, gives, as the `aes-gcm` crate
/// computes it: the plaintext, or `None` where it refuses the input.
pub uninterp spec fn aes256gcm_open(key: Seq<u8>, nonce: Seq<u8>, sealed: Seq<u8>) -> Option<Seq<u8>>;

/// Whether some plaintext that `aes-gcm` encrypts seals to `sealed` under `key` and `nonce`.
pub open spec fn seals_some_plaintext(key: Seq<u8>, nonce: Seq<u8>, sealed: Seq<u8>) -> bool {
    exists|p: Seq<u8>| gcm_accepts(p) && #[trigger] aes256gcm_seal(key, nonce, p) == sealed
}

/// Whether `v` is the only plaintext that seals to `sealed` under `key` and `nonce`.
pub open spec fn only_plaintext(key: Seq<u8>, nonce: Seq<u8>, sealed: Seq<u8>, v: Seq<u8>) -> bool {
    forall|p: Seq<u8>| #[trigger] aes256gcm_seal(key, nonce, p) == sealed ==> p == v
}

/// Encrypts with `Aes256Gcm::encrypt` (key from `KeyInit::new`, no associated data).
/// Trusted, as `aes-gcm` 0.10 and `aead` 0.5 show it: a plaintext of at most
/// `P_MAX` bytes is sealed (the result is `aes256gcm_seal` of the arguments, 16
/// bytes longer than the plaintext); a longer one is refused.
#[verifier::external_body]
pub(crate) fn aes256gcm_encrypt(key: &[u8; 32], nonce: &[u8; 12], plaintext: &[u8]) -> (r: Result<Vec<u8>, aes_gcm::Error>)
    ensures
        r is Ok == gcm_accepts(plaintext@),
        r matches Ok(c) ==> c@ == aes256gcm_seal(key@, nonce@, plaintext@),
        r matches Ok(c) ==> c@.len() == plaintext@.len() + 16,
{
    let cipher = Aes256Gcm::new(Key::<Aes256Gcm>::from_slice(key));
    cipher.encrypt(Nonce::from_slice(nonce), plaintext)
}

/// Decrypts with `Aes256Gcm::decrypt` (key from `KeyInit::new`, no associated data).
/// Trusted, as `aes-gcm` 0.10 and `aead` 0.5 show it: the result is what the
/// name `aes256gcm_open` gives for the arguments; decryption succeeds only when
/// the input holds a 16-byte tag after the cipher text and the tag checks, and
/// then the plaintext is 16 bytes shorter than the input and is the one, and the only one,
/// whose sealing is the input (the cipher text is the plaintext xor-ed with the
/// key stream, so no other plaintext seals to it); decryption fails only where no
/// plaintext of at most `P_MAX` bytes seals to the input.
#[verifier::external_body]
pub(crate) fn aes256gcm_decrypt(key: &[u8; 32], nonce: &[u8; 12], ciphertext: &[u8]) -> (r: Result<Vec<u8>, aes_gcm::Error>)
    ensures
        r matches Ok(v) ==> Some(v@) == aes256gcm_open(key@, nonce@, ciphertext@),
        r is Err ==> aes256gcm_open(key@, nonce@, ciphertext@) is None,
        r matches Ok(v) ==> aes256gcm_seal(key@, nonce@, v@) == ciphertext@,
        r matches Ok(v) ==> only_plaintext(key@, nonce@, ciphertext@, v@),
        r matches Ok(v) ==> ciphertext@.len() == v@.len() + 16,
        r is Err ==> !seals_some_plaintext(key@, nonce@, ciphertext@),
{
    let cipher = Aes256Gcm::new(Key::<Aes256Gcm>::from_slice(key));
    cipher.decrypt(Nonce::from_slice(nonce), ciphertext)
}

/// The text of an `aes_gcm::Error` (`ToString` through its `Display`). Trusted:
/// its `Display` writes `aead::Error`, as the `aead` 0.5 source shows.
#[verifier::external_body]
pub(crate) fn aead_error_text(e: &aes_gcm::Error) -> (s: String)
    ensures
        s@ == "aead::Error"@,
{
    e.to_string()
}

} // verus!

verus! {

/// An AES-256-GCM cipher, held as the 32-byte key it was made with.
pub struct GcmCipher {
    key: [u8; 32],
}

impl View for GcmCipher {
    type V = Seq<u8>;

    closed spec fn view(&self) -> Seq<u8> {
        self.key@
    }
}

impl GcmCipher {
    /// The cipher of a 32-byte key.
    pub fn new(key: [u8; 32]) -> (c: GcmCipher)
        ensures
            c@ == key@,
    {
        GcmCipher { key }
    }

    /// Seals `plaintext` under `nonce`; refused (`aes_gcm::Error`) for a plaintext
    /// longer than `P_MAX`.
    pub fn encrypt(&self, nonce: &[u8; 12], plaintext: &[u8]) -> (r: Result<Vec<u8>, aes_gcm::Error>)
        ensures
            gcm_accepts(plaintext@) ==> (r matches Ok(c) && c@ == aes256gcm_seal(self@, nonce@, plaintext@)),
            !gcm_accepts(plaintext@) ==> r is Err,
            r matches Ok(c) ==> c@.len() == plaintext@.len() + 16,
    {
        aes256gcm_encrypt(&self.key, nonce, plaintext)
    }

    /// Opens `ciphertext` (cipher text and tag) under `nonce`.
    pub fn decrypt(&self, nonce: &[u8; 12], ciphertext: &[u8]) -> (r: Result<Vec<u8>, aes_gcm::Error>)
        ensures
            r matches Ok(v) ==> Some(v@) == aes256gcm_open(self@, nonce@, ciphertext@),
            r is Err ==> aes256gcm_open(self@, nonce@, ciphertext@) is None,
            r matches Ok(v) ==> aes256gcm_seal(self@, nonce@, v@) == ciphertext@ && only_plaintext(
                self@,
                nonce@,
                ciphertext@,
                v@,
            ) && ciphertext@.len() == v@.len() + 16,
            r is Err ==> !seals_some_plaintext(self@, nonce@, ciphertext@),
    {
        aes256gcm_decrypt(&self.key, nonce, ciphertext)
    }
}

} // verus!

verus! {

/// What sealing `p` under `key` and `nonce` gives in the library's terms:
/// `EncryptionFailed("aead::Error")` for a plaintext AES-GCM refuses, else the
/// sealing, 16 bytes longer than the plaintext.
pub open spec fn sealed_result(key: Seq<u8>, nonce: Seq<u8>, p: Seq<u8>, r: Result<Vec<u8>, QwartzError>) -> bool {
    if gcm_accepts(p) {
        r matches Ok(c) && c@ == aes256gcm_seal(key, nonce, p) && c@.len() == p.len() + 16
    } else {
        r matches Err(QwartzError::EncryptionFailed(m)) && m@ == "aead::Error"@
    }
}

/// What opening `body` under `key` and `nonce` gives in the library's terms: the
/// plaintext that AES-GCM decryption gives (the only one whose sealing is the
/// body, 16 bytes shorter than it), or `DecryptionFailed("aead::Error")` where
/// decryption refuses the body, which it does only where no plaintext AES-GCM
/// accepts seals to it.
pub open spec fn opened_result(key: Seq<u8>, nonce: Seq<u8>, body: Seq<u8>, r: Result<Vec<u8>, QwartzError>) -> bool {
    match aes256gcm_open(key, nonce, body) {
        Some(v) => {
            &&& r matches Ok(q) && q@ == v
            &&& aes256gcm_seal(key, nonce, v) == body
            &&& only_plaintext(key, nonce, body, v)
            &&& body.len() == v.len() + 16
        },
        None => {
            &&& r matches Err(QwartzError::DecryptionFailed(m)) && m@ == "aead::Error"@
            &&& !seals_some_plaintext(key, nonce, body)
        },
    }
}

/// Seals `plaintext` with `cipher` under `nonce` (see `sealed_result`).
pub(crate) fn seal_with(cipher: &GcmCipher, nonce: &[u8; 12], plaintext: &[u8]) -> (r: Result<Vec<u8>, QwartzError>)
    ensures
        sealed_result(cipher@, nonce@, plaintext@, r),
{
    match cipher.encrypt(nonce, plaintext) {
        Ok(c) => Ok(c),
        Err(e) => Err(QwartzError::EncryptionFailed(aead_error_text(&e))),
    }
}

/// Opens `body` with `cipher` under `nonce` (see `opened_result`).
pub(crate) fn open_with(cipher: &GcmCipher, nonce: &[u8; 12], body: &[u8]) -> (r: Result<Vec<u8>, QwartzError>)
    ensures
        opened_result(cipher@, nonce@, body@, r),
{
    match cipher.decrypt(nonce, body) {
        Ok(p) => Ok(p),
        Err(e) => Err(QwartzError::DecryptionFailed(aead_error_text(&e))),
    }
}

/// Two results that both meet `opened_result` for the same arguments are the same.
pub proof fn lemma_opened_result_unique(
    key: Seq<u8>,
    nonce: Seq<u8>,
    body: Seq<u8>,
    r1: Result<Vec<u8>, QwartzError>,
    r2: Result<Vec<u8>, QwartzError>,
)
    requires
        opened_result(key, nonce, body, r1),
        opened_result(key, nonce, body, r2),
    ensures
        same_outcome(r1, r2),
{
}

/// A sealing of a plaintext AES-GCM accepts opens to that plaintext.
pub proof fn lemma_sealed_opens(key: Seq<u8>, nonce: Seq<u8>, p: Seq<u8>, r: Result<Vec<u8>, QwartzError>)
    requires
        gcm_accepts(p),
        opened_result(key, nonce, aes256gcm_seal(key, nonce, p), r),
    ensures
        r matches Ok(q) && q@ == p,
{
    let body = aes256gcm_seal(key, nonce, p);
    if aes256gcm_open(key, nonce, body) is None {
        assert(seals_some_plaintext(key, nonce, body));
    }
}

} // verus!
