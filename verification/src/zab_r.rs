//! ZAB-R, the adaptive mode: keys derived from an environment context that is
//! itself drawn from entropy, evolved over time, and exported for synchronisation.

use crate::cipher::{aes256gcm_seal, gcm_accepts, lemma_sealed_opens, open_with, opened_result, seal_with, GcmCipher};
use crate::clock::unix_seconds;
use crate::digest::{sha3_256, sha3_256_digest};
use crate::entropy::{seed_outcome, EntropyEngine};
use crate::frame::{block32, lemma_three_parts, push_all};
use crate::QwartzError;
use vstd::bytes::*;
use vstd::prelude::*;
use vstd::slice::slice_subrange;

verus! {

/// Sets every byte of a 32-byte block to zero with `zeroize::Zeroize::zeroize`
/// (volatile writes). Trusted: afterwards the block holds 32 zero bytes, as the
/// `zeroize` 1.x source shows for arrays of bytes.
#[verifier::external_body]
pub(crate) fn zeroize_block(block: &mut [u8; 32])
    ensures
        final(block)@ == Seq::new(32, |i: int| 0u8),
{
    zeroize::Zeroize::zeroize(block)
}

/// An adaptive key: the environment context it was derived from, when it was
/// made, and how often it has evolved.
pub struct ZABAdaptive {
    context: [u8; 32],
    generation: u64,
    evolution: u64,
}

/// The contents of an adaptive key.
pub struct ZABAdaptiveView {
    pub context: Seq<u8>,
    pub generation: u64,
    pub evolution: u64,
}

impl View for ZABAdaptive {
    type V = ZABAdaptiveView;

    closed spec fn view(&self) -> ZABAdaptiveView {
        ZABAdaptiveView { context: self.context@, generation: self.generation, evolution: self.evolution }
    }
}

/// An adaptive key's contents as a key can hold them: a context of 32 bytes.
pub open spec fn adaptive_view_valid(a: ZABAdaptiveView) -> bool {
    a.context.len() == 32
}

/// The fourteen bytes `ZAB-R-Adaptive`.
pub open spec fn adaptive_label() -> Seq<u8> {
    seq![0x5Au8, 0x41u8, 0x42u8, 0x2Du8, 0x52u8, 0x2Du8, 0x41u8, 0x64u8, 0x61u8, 0x70u8, 0x74u8, 0x69u8, 0x76u8, 0x65u8]
}

/// The fifteen bytes `ZAB-R-Evolution`.
pub open spec fn evolution_label() -> Seq<u8> {
    seq![0x5Au8, 0x41u8, 0x42u8, 0x2Du8, 0x52u8, 0x2Du8, 0x45u8, 0x76u8, 0x6Fu8, 0x6Cu8, 0x75u8, 0x74u8, 0x69u8, 0x6Fu8, 0x6Eu8]
}

/// The seven bytes `ZAB-R01` that open an adaptive ciphertext.
pub open spec fn zab_r_magic() -> Seq<u8> {
    seq![0x5Au8, 0x41u8, 0x42u8, 0x2Du8, 0x52u8, 0x30u8, 0x31u8]
}

/// The environment context of a 64-byte seed and a process id: the SHA3-256 of
/// the seed, `ZAB-R-Adaptive` and the id (4 bytes, little-endian).
pub open spec fn context_of(seed: Seq<u8>, pid: u32) -> Seq<u8> {
    sha3_256(seed + adaptive_label() + spec_u32_to_le_bytes(pid))
}

/// The adaptive key made of a seed, a process id and a generation time.
pub open spec fn adaptive_from(seed: Seq<u8>, pid: u32, generation: u64) -> ZABAdaptiveView {
    ZABAdaptiveView { context: context_of(seed, pid), generation, evolution: 0 }
}

/// The key derived for a purpose: the SHA3-256 of the context, the purpose, the
/// generation and the evolution counter (8 bytes each, little-endian).
pub open spec fn derived_key(a: ZABAdaptiveView, purpose: Seq<u8>) -> Seq<u8> {
    sha3_256(
        a.context + purpose + spec_u64_to_le_bytes(a.generation) + spec_u64_to_le_bytes(
            a.evolution,
        ),
    )
}

/// The key after one evolution with 64 bytes of entropy: the counter goes up by
/// one, the context becomes the SHA3-256 of the old context, the entropy and
/// `ZAB-R-Evolution`.
pub open spec fn evolved(a: ZABAdaptiveView, entropy: Seq<u8>) -> ZABAdaptiveView {
    ZABAdaptiveView {
        context: sha3_256(a.context + entropy + evolution_label()),
        generation: a.generation,
        evolution: (a.evolution + 1) as u64,
    }
}

/// Whether `b` is reached from `a` by `k` evolutions, each with a seed the
/// entropy engine can give (see `evolved` and `seed_outcome`).
pub open spec fn evolves_to(a: ZABAdaptiveView, b: ZABAdaptiveView, k: nat) -> bool
    decreases k,
{
    if k == 0 {
        b == a
    } else {
        exists|m: ZABAdaptiveView, seed: Seq<u8>|
            #![trigger evolved(m, seed)]
            seed_outcome(seed) && evolves_to(a, m, (k - 1) as nat) && evolved(m, seed) == b
    }
}

/// The number of positions below `n` where two byte strings agree.
pub open spec fn agreeing_positions(a: Seq<u8>, b: Seq<u8>, n: int) -> int
    decreases n,
{
    if n <= 0 {
        0
    } else {
        agreeing_positions(a, b, n - 1) + if a[n - 1] == b[n - 1] {
            1int
        } else {
            0int
        }
    }
}

/// Whether a context is close enough to an expected one: at least 16 of the 32
/// positions agree.
pub open spec fn close_enough(context: Seq<u8>, expected: Seq<u8>) -> bool {
    agreeing_positions(context, expected, 32) >= 16
}

/// The exported context: generation and evolution (8 bytes each, little-endian),
/// then the context.
pub open spec fn exported_context(a: ZABAdaptiveView) -> Seq<u8> {
    spec_u64_to_le_bytes(a.generation) + spec_u64_to_le_bytes(a.evolution) + a.context
}

/// The adaptive key that at least 48 bytes of exported context hold.
pub open spec fn decoded_context(data: Seq<u8>) -> ZABAdaptiveView {
    ZABAdaptiveView {
        context: data.subrange(16, 48),
        generation: spec_u64_from_le_bytes(data.subrange(0, 8)),
        evolution: spec_u64_from_le_bytes(data.subrange(8, 16)),
    }
}

/// The adaptive ciphertext of a plaintext under key `a` for a purpose with a
/// nonce: the magic `ZAB-R01`, the evolution counter (little-endian), the nonce,
/// then the AES-256-GCM sealing of the plaintext under the key derived for the
/// purpose.
pub open spec fn adaptive_ciphertext(a: ZABAdaptiveView, plaintext: Seq<u8>, purpose: Seq<u8>, nonce: Seq<u8>) -> Seq<u8> {
    zab_r_magic() + spec_u64_to_le_bytes(a.evolution) + nonce + aes256gcm_seal(
        derived_key(a, purpose),
        nonce,
        plaintext,
    )
}

/// What adaptive encryption of `p` under key `a` for a purpose with a nonce
/// gives: `EncryptionFailed("aead::Error")` for a plaintext AES-GCM refuses,
/// else the adaptive ciphertext, 43 bytes longer than the plaintext (header,
/// nonce and tag).
pub open spec fn adaptive_encrypt_result(
    a: ZABAdaptiveView,
    nonce: Seq<u8>,
    p: Seq<u8>,
    purpose: Seq<u8>,
    r: Result<Vec<u8>, QwartzError>,
) -> bool {
    if gcm_accepts(p) {
        r matches Ok(c) && c@ == adaptive_ciphertext(a, p, purpose, nonce) && c@.len() == p.len() + 43
    } else {
        r matches Err(QwartzError::EncryptionFailed(m)) && m@ == "aead::Error"@
    }
}

/// Whether a byte string has the frame of an adaptive ciphertext: at least 27
/// bytes (magic, evolution counter, nonce), the magic first.
pub open spec fn adaptive_frame_ok(data: Seq<u8>) -> bool {
    data.len() >= 27 && data.subrange(0, 7) == zab_r_magic()
}

/// The evolution counter that an adaptive ciphertext names.
pub open spec fn framed_evolution(data: Seq<u8>) -> u64 {
    spec_u64_from_le_bytes(data.subrange(7, 15))
}

/// What adaptive decryption of `data` for a purpose under key `a` gives:
/// `InvalidKey("Invalid ZAB-R format")` for a byte string without the frame;
/// else, with the key brought forward to the evolution the data names, what
/// opening the rest under the key derived for the purpose and the framed nonce
/// gives (see `opened_result`). A key already at or past that evolution is used
/// as it is; one behind it is first evolved, once for each step it lags, each
/// time with a fresh seed (see `evolves_to`).
pub open spec fn adaptive_decrypt_result(
    a: ZABAdaptiveView,
    purpose: Seq<u8>,
    data: Seq<u8>,
    r: Result<Vec<u8>, QwartzError>,
) -> bool {
    if !adaptive_frame_ok(data) {
        r matches Err(QwartzError::InvalidKey(m)) && m@ == "Invalid ZAB-R format"@
    } else if framed_evolution(data) <= a.evolution {
        opened_result(derived_key(a, purpose), data.subrange(15, 27), data.subrange(27, data.len() as int), r)
    } else {
        exists|b: ZABAdaptiveView|
            evolves_to(a, b, (framed_evolution(data) - a.evolution) as nat) && #[trigger] opened_result(
                derived_key(b, purpose),
                data.subrange(15, 27),
                data.subrange(27, data.len() as int),
                r,
            )
    }
}

impl ZABAdaptive {
    /// The key's contents are well formed.
    pub proof fn lemma_valid(&self)
        ensures
            adaptive_view_valid(self@),
    {
    }

    /// The adaptive key of a 64-byte seed, a process id and a generation time
    /// (see `adaptive_from`).
    pub fn from_entropy(seed: &[u8; 64], pid: u32, generation: u64) -> (a: ZABAdaptive)
        ensures
            a@ == adaptive_from(seed@, pid, generation),
    {
        let mut input: Vec<u8> = Vec::new();
        push_all(&mut input, seed.as_slice());
        let label: [u8; 14] = [
            0x5A,
            0x41,
            0x42,
            0x2D,
            0x52,
            0x2D,
            0x41,
            0x64,
            0x61,
            0x70,
            0x74,
            0x69,
            0x76,
            0x65,
        ];
        assert(label@ =~= adaptive_label());
        push_all(&mut input, label.as_slice());
        let id = u32_to_le_bytes(pid);
        push_all(&mut input, id.as_slice());
        assert(input@ =~= seed@ + adaptive_label() + spec_u32_to_le_bytes(pid));
        let digest = sha3_256_digest(input.as_slice());
        let context = block32(digest.as_slice(), 0);
        assert(digest@.subrange(0, 32) =~= digest@);
        ZABAdaptive { context, generation, evolution: 0 }
    }

    /// A new adaptive key for the process with id `pid`, from a fresh seed,
    /// stamped with the wall clock in seconds. Always succeeds.
    pub fn new(pid: u32) -> (r: Result<ZABAdaptive, QwartzError>)
        ensures
            r matches Ok(a) && exists|seed: Seq<u8>|
                seed_outcome(seed) && #[trigger] adaptive_from(seed, pid, a@.generation) == a@,
    {
        let entropy = EntropyEngine::generate_seed();
        let generation = unix_seconds();
        let a = Self::from_entropy(&entropy, pid, generation);
        let r: Result<ZABAdaptive, QwartzError> = Ok(a);
        assert(r matches Ok(b) && adaptive_from(entropy@, pid, b@.generation) == b@);
        r
    }

    /// The key for a purpose (see `derived_key`).
    pub fn derive_key(&self, purpose: &[u8]) -> (key: [u8; 32])
        ensures
            key@ == derived_key(self@, purpose@),
    {
        let mut input: Vec<u8> = Vec::new();
        push_all(&mut input, self.context.as_slice());
        push_all(&mut input, purpose);
        let g = u64_to_le_bytes(self.generation);
        push_all(&mut input, g.as_slice());
        let e = u64_to_le_bytes(self.evolution);
        push_all(&mut input, e.as_slice());
        let digest = sha3_256_digest(input.as_slice());
        assert(digest@.subrange(0, 32) =~= digest@);
        block32(digest.as_slice(), 0)
    }

    /// Evolves the key with 64 bytes of entropy (see `evolved`); the old context
    /// is wiped before the new one takes its place.
    pub fn evolve_with(&mut self, entropy: &[u8; 64])
        requires
            old(self)@.evolution < u64::MAX,
        ensures
            final(self)@ == evolved(old(self)@, entropy@),
    {
        self.evolution = self.evolution + 1;
        let mut input: Vec<u8> = Vec::new();
        push_all(&mut input, self.context.as_slice());
        push_all(&mut input, entropy.as_slice());
        let label: [u8; 15] = [
            0x5A,
            0x41,
            0x42,
            0x2D,
            0x52,
            0x2D,
            0x45,
            0x76,
            0x6F,
            0x6C,
            0x75,
            0x74,
            0x69,
            0x6F,
            0x6E,
        ];
        assert(label@ =~= evolution_label());
        push_all(&mut input, label.as_slice());
        let digest = sha3_256_digest(input.as_slice());
        zeroize_block(&mut self.context);
        self.context = block32(digest.as_slice(), 0);
        assert(digest@.subrange(0, 32) =~= digest@);
    }

    /// Evolves the key with a fresh seed (see `evolved`).
    pub fn evolve(&mut self)
        requires
            old(self)@.evolution < u64::MAX,
        ensures
            exists|seed: Seq<u8>| seed_outcome(seed) && #[trigger] evolved(old(self)@, seed)
                == final(self)@,
    {
        let entropy = EntropyEngine::generate_seed();
        self.evolve_with(&entropy);
    }

    /// Whether the context is close enough to `expected` (see `close_enough`).
    pub fn verify_against(&self, expected: &[u8; 32]) -> (ok: bool)
        ensures
            ok == close_enough(self@.context, expected@),
    {
        let mut matches: usize = 0;
        let mut i: usize = 0;
        while i < 32
            invariant
                i <= 32,
                matches <= i,
                matches == agreeing_positions(self.context@, expected@, i as int),
            decreases 32 - i,
        {
            if self.context[i] == expected[i] {
                matches += 1;
            }
            i += 1;
        }
        matches >= 16
    }

    /// Whether the context is close enough to the context that a fresh seed and
    /// the process id `pid` give now.
    pub fn verify(&self, pid: u32) -> (ok: bool)
        ensures
            exists|seed: Seq<u8>| seed_outcome(seed) && ok == close_enough(
                self@.context,
                #[trigger] context_of(seed, pid),
            ),
    {
        let entropy = EntropyEngine::generate_seed();
        let expected = Self::from_entropy(&entropy, pid, 0);
        self.verify_against(&expected.context)
    }

    /// The exported context (see `exported_context`), 48 bytes.
    pub fn export_context(&self) -> (out: Vec<u8>)
        ensures
            out@ == exported_context(self@),
    {
        let mut out: Vec<u8> = Vec::new();
        let g = u64_to_le_bytes(self.generation);
        push_all(&mut out, g.as_slice());
        let e = u64_to_le_bytes(self.evolution);
        push_all(&mut out, e.as_slice());
        push_all(&mut out, self.context.as_slice());
        out
    }

    /// Reads an exported context; `InvalidKey("Context too short")` for fewer
    /// than 48 bytes. Bytes after the 48th are ignored.
    pub fn import_context(data: &[u8]) -> (r: Result<ZABAdaptive, QwartzError>)
        ensures
            data@.len() < 48 ==> (r matches Err(QwartzError::InvalidKey(m)) && m@
                == "Context too short"@),
            data@.len() >= 48 ==> (r matches Ok(a) && a@ == decoded_context(data@)),
    {
        if data.len() < 48 {
            return Err(QwartzError::InvalidKey(String::from_str("Context too short")));
        }
        let generation = u64_from_le_bytes(slice_subrange(data, 0, 8));
        let evolution = u64_from_le_bytes(slice_subrange(data, 8, 16));
        let context = block32(data, 16);
        Ok(ZABAdaptive { context, generation, evolution })
    }
}

/// Encrypts `plaintext` for `purpose` under the adaptive key `key_manager` with
/// `nonce` (see `adaptive_encrypt_result`).
pub fn encrypt_adaptive_with(key_manager: &ZABAdaptive, plaintext: &[u8], purpose: &[u8], nonce: &[u8; 12]) -> (r:
    Result<Vec<u8>, QwartzError>)
    ensures
        adaptive_encrypt_result(key_manager@, nonce@, plaintext@, purpose@, r),
{
    let key = key_manager.derive_key(purpose);
    let cipher = GcmCipher::new(key);
    let sealed = match seal_with(&cipher, nonce, plaintext) {
        Ok(c) => c,
        Err(e) => {
            return Err(e);
        },
    };
    let mut ciphertext: Vec<u8> = Vec::new();
    ciphertext.push(0x5A);
    ciphertext.push(0x41);
    ciphertext.push(0x42);
    ciphertext.push(0x2D);
    ciphertext.push(0x52);
    ciphertext.push(0x30);
    ciphertext.push(0x31);
    let e = u64_to_le_bytes(key_manager.evolution);
    push_all(&mut ciphertext, e.as_slice());
    push_all(&mut ciphertext, nonce.as_slice());
    push_all(&mut ciphertext, sealed.as_slice());
    assert(ciphertext@ =~= adaptive_ciphertext(key_manager@, plaintext@, purpose@, nonce@));
    Ok(ciphertext)
}

/// The first 12 bytes of a seed, as a nonce.
fn nonce_of(seed: &[u8; 64]) -> (n: [u8; 12])
    ensures
        n@ == seed@.subrange(0, 12),
{
    let mut n: [u8; 12] = [0u8; 12];
    let mut i: usize = 0;
    while i < 12
        invariant
            i <= 12,
            forall|j: int| 0 <= j < i ==> n@[j] == seed@[j],
        decreases 12 - i,
    {
        n[i] = seed[i];
        i += 1;
    }
    assert(n@ =~= seed@.subrange(0, 12));
    n
}

/// Encrypts `plaintext` for `purpose` under a new adaptive key for the process
/// `pid` (see `ZABAdaptive::new`), with the first 12 bytes of a fresh seed as
/// nonce (see `adaptive_encrypt_result`).
pub fn encrypt_adaptive(plaintext: &[u8], purpose: &[u8], pid: u32) -> (r: Result<Vec<u8>, QwartzError>)
    ensures
        exists|a: ZABAdaptiveView, nonce_seed: Seq<u8>|
            (exists|seed: Seq<u8>| seed_outcome(seed) && #[trigger] adaptive_from(seed, pid, a.generation) == a)
            && seed_outcome(nonce_seed) && #[trigger] adaptive_encrypt_result(
                a,
                nonce_seed.subrange(0, 12),
                plaintext@,
                purpose@,
                r,
            ),
{
    let key_manager = match ZABAdaptive::new(pid) {
        Ok(k) => k,
        Err(e) => {
            return Err(e);
        },
    };
    let entropy = EntropyEngine::generate_seed();
    let nonce = nonce_of(&entropy);
    let r = encrypt_adaptive_with(&key_manager, plaintext, purpose, &nonce);
    assert(adaptive_encrypt_result(key_manager@, entropy@.subrange(0, 12), plaintext@, purpose@, r));
    r
}

/// Whether `data` opens with the seven bytes `ZAB-R01`.
fn has_adaptive_magic(data: &[u8]) -> (r: bool)
    requires
        data@.len() >= 7,
    ensures
        r == (data@.subrange(0, 7) == zab_r_magic()),
{
    let r = data[0] == 0x5A && data[1] == 0x41 && data[2] == 0x42 && data[3] == 0x2D && data[4]
        == 0x52 && data[5] == 0x30 && data[6] == 0x31;
    assert(r == (data@.subrange(0, 7) =~= zab_r_magic()));
    r
}

/// Decrypts an adaptive ciphertext for `purpose` with the adaptive key
/// `key_manager`, brought forward to the evolution the ciphertext names (see
/// `adaptive_decrypt_result`).
pub fn decrypt_adaptive_with(key_manager: &ZABAdaptive, ciphertext: &[u8], purpose: &[u8]) -> (r:
    Result<Vec<u8>, QwartzError>)
    ensures
        adaptive_decrypt_result(key_manager@, purpose@, ciphertext@, r),
{
    if ciphertext.len() < 27 || !has_adaptive_magic(ciphertext) {
        return Err(QwartzError::InvalidKey(String::from_str("Invalid ZAB-R format")));
    }
    let evolution = u64_from_le_bytes(slice_subrange(ciphertext, 7, 15));
    let mut current = ZABAdaptive {
        context: key_manager.context,
        generation: key_manager.generation,
        evolution: key_manager.evolution,
    };
    while current.evolution < evolution
        invariant
            evolution <= key_manager@.evolution ==> current@ == key_manager@,
            evolution > key_manager@.evolution ==> key_manager@.evolution <= current@.evolution
                <= evolution,
            evolution > key_manager@.evolution ==> evolves_to(
                key_manager@,
                current@,
                (current@.evolution - key_manager@.evolution) as nat,
            ),
        decreases evolution - current.evolution,
    {
        let ghost prev = current@;
        current.evolve();
        assert(evolves_to(key_manager@, current@, (current@.evolution - key_manager@.evolution) as nat)) by {
            let seed = choose|seed: Seq<u8>| seed_outcome(seed) && #[trigger] evolved(prev, seed) == current@;
            assert(evolved(prev, seed) == current@);
        }
    }
    let key = current.derive_key(purpose);
    let cipher = GcmCipher::new(key);
    let mut nonce: [u8; 12] = [0u8; 12];
    let mut i: usize = 0;
    while i < 12
        invariant
            i <= 12,
            ciphertext@.len() >= 27,
            forall|j: int| 0 <= j < i ==> nonce@[j] == ciphertext@[15 + j],
        decreases 12 - i,
    {
        nonce[i] = ciphertext[15 + i];
        i += 1;
    }
    assert(nonce@ =~= ciphertext@.subrange(15, 27));
    let body = slice_subrange(ciphertext, 27, ciphertext.len());
    let r = open_with(&cipher, &nonce, body);
    assert(opened_result(derived_key(current@, purpose@), ciphertext@.subrange(15, 27), ciphertext@.subrange(27, ciphertext@.len() as int), r));
    r
}

/// Decrypts an adaptive ciphertext for `purpose` with a new adaptive key for the
/// process `pid` (see `ZABAdaptive::new` and `decrypt_adaptive_with`). A byte
/// string without the frame fails before any key is made.
pub fn decrypt_adaptive(ciphertext: &[u8], purpose: &[u8], pid: u32) -> (r: Result<Vec<u8>, QwartzError>)
    ensures
        !adaptive_frame_ok(ciphertext@) ==> (r matches Err(QwartzError::InvalidKey(m)) && m@
            == "Invalid ZAB-R format"@),
        adaptive_frame_ok(ciphertext@) ==> exists|a: ZABAdaptiveView|
            (exists|seed: Seq<u8>| seed_outcome(seed) && #[trigger] adaptive_from(seed, pid, a.generation) == a)
            && #[trigger] adaptive_decrypt_result(a, purpose@, ciphertext@, r),
{
    if ciphertext.len() < 27 || !has_adaptive_magic(ciphertext) {
        return Err(QwartzError::InvalidKey(String::from_str("Invalid ZAB-R format")));
    }
    let key_manager = match ZABAdaptive::new(pid) {
        Ok(k) => k,
        Err(e) => {
            return Err(e);
        },
    };
    let r = decrypt_adaptive_with(&key_manager, ciphertext, purpose);
    assert(adaptive_decrypt_result(key_manager@, purpose@, ciphertext@, r));
    r
}

/// Adaptive decryption undoes adaptive encryption: the ciphertext that
/// encrypting a plaintext AES-GCM accepts gives under an adaptive key, with any
/// nonce, decrypts with that key to the plaintext.
pub proof fn lemma_adaptive_encrypt_decrypt(
    a: ZABAdaptiveView,
    nonce: Seq<u8>,
    p: Seq<u8>,
    purpose: Seq<u8>,
    sealed: Result<Vec<u8>, QwartzError>,
    opened: Result<Vec<u8>, QwartzError>,
)
    requires
        nonce.len() == 12,
        gcm_accepts(p),
        adaptive_encrypt_result(a, nonce, p, purpose, sealed),
        sealed matches Ok(c) && adaptive_decrypt_result(a, purpose, c@, opened),
    ensures
        opened matches Ok(q) && q@ == p,
{
    lemma_auto_spec_u64_to_from_le_bytes();
    let c = sealed->Ok_0@;
    let key = derived_key(a, purpose);
    let body = aes256gcm_seal(key, nonce, p);
    assert(spec_u64_to_le_bytes(a.evolution).len() == 8);
    assert(c.subrange(0, 7) =~= zab_r_magic());
    assert(c.subrange(7, 15) =~= spec_u64_to_le_bytes(a.evolution));
    assert(c.subrange(15, 27) =~= nonce);
    assert(c.subrange(27, c.len() as int) =~= body);
    lemma_sealed_opens(key, nonce, p, opened);
}

/// The key derived for a purpose is the SHA3-256 of a byte string of
/// `48 + |purpose|` bytes: the 32 bytes of context, the purpose, then the
/// generation and the evolution counter, 8 bytes each, little-endian.
pub proof fn lemma_derived_key_hashes_context_purpose_generation_evolution(
    a: ZABAdaptiveView,
    purpose: Seq<u8>,
    input: Seq<u8>,
)
    requires
        adaptive_view_valid(a),
        input.len() == 48 + purpose.len(),
        input.subrange(0, 32) == a.context,
        input.subrange(32, 32 + purpose.len() as int) == purpose,
        input.subrange(32 + purpose.len() as int, 40 + purpose.len() as int) == spec_u64_to_le_bytes(
            a.generation,
        ),
        input.subrange(40 + purpose.len() as int, 48 + purpose.len() as int) == spec_u64_to_le_bytes(
            a.evolution,
        ),
    ensures
        derived_key(a, purpose) == sha3_256(input),
{
    let n = purpose.len() as int;
    let g = spec_u64_to_le_bytes(a.generation);
    let e = spec_u64_to_le_bytes(a.evolution);
    lemma_auto_spec_u64_to_from_le_bytes();
    assert(g.len() == 8 && e.len() == 8);
    assert(input =~= a.context + purpose + g + e) by {
        assert forall|i: int| 0 <= i < input.len() implies input[i] == (a.context + purpose + g + e)[i] by {
            if i < 32 {
                assert(input[i] == input.subrange(0, 32)[i]);
            } else if i < 32 + n {
                assert(input[i] == input.subrange(32, 32 + n)[i - 32]);
            } else if i < 40 + n {
                assert(input[i] == input.subrange(32 + n, 40 + n)[i - 32 - n]);
            } else {
                assert(input[i] == input.subrange(40 + n, 48 + n)[i - 40 - n]);
            }
        }
    }
}

/// The context of a new adaptive key is the SHA3-256 of a byte string of 82
/// bytes: the 64-byte seed, the 14 bytes `ZAB-R-Adaptive`, then the process id
/// (4 bytes, little-endian); the key starts at evolution 0.
pub proof fn lemma_context_hashes_seed_label_pid(seed: Seq<u8>, pid: u32, generation: u64, input: Seq<u8>)
    requires
        seed.len() == 64,
        input.len() == 82,
        input.subrange(0, 64) == seed,
        input.subrange(64, 78) == seq![0x5Au8, 0x41u8, 0x42u8, 0x2Du8, 0x52u8, 0x2Du8, 0x41u8, 0x64u8, 0x61u8, 0x70u8, 0x74u8, 0x69u8, 0x76u8, 0x65u8],
        input.subrange(78, 82) == spec_u32_to_le_bytes(pid),
    ensures
        adaptive_from(seed, pid, generation) == (ZABAdaptiveView {
            context: sha3_256(input),
            generation,
            evolution: 0,
        }),
{
    lemma_auto_spec_u32_to_from_le_bytes();
    assert(spec_u32_to_le_bytes(pid).len() == 4);
    assert(input.subrange(64, 78) =~= adaptive_label());
    lemma_three_parts(input, seed, adaptive_label(), spec_u32_to_le_bytes(pid));
}

/// An evolution re-hashes the old context: the new context is the SHA3-256 of
/// a byte string of 111 bytes, the 32 bytes of old context, the 64 bytes of
/// entropy, then the 15 bytes `ZAB-R-Evolution`; the generation stays and the
/// counter goes up by one.
pub proof fn lemma_evolution_rehashes_context(a: ZABAdaptiveView, entropy: Seq<u8>, input: Seq<u8>)
    requires
        adaptive_view_valid(a),
        a.evolution < u64::MAX,
        entropy.len() == 64,
        input.len() == 111,
        input.subrange(0, 32) == a.context,
        input.subrange(32, 96) == entropy,
        input.subrange(96, 111) == seq![0x5Au8, 0x41u8, 0x42u8, 0x2Du8, 0x52u8, 0x2Du8, 0x45u8, 0x76u8, 0x6Fu8, 0x6Cu8, 0x75u8, 0x74u8, 0x69u8, 0x6Fu8, 0x6Eu8],
    ensures
        evolved(a, entropy) == (ZABAdaptiveView {
            context: sha3_256(input),
            generation: a.generation,
            evolution: (a.evolution + 1) as u64,
        }),
{
    assert(input.subrange(96, 111) =~= evolution_label());
    lemma_three_parts(input, a.context, entropy, evolution_label());
}

/// The layout of an adaptive ciphertext: a 27-byte header, namely the bytes
/// `ZAB-R01`, the evolution counter (8 bytes, little-endian) and the 12-byte
/// nonce, then the AES-256-GCM sealing of the plaintext under the key derived
/// for the purpose.
pub proof fn lemma_adaptive_ciphertext_layout(a: ZABAdaptiveView, p: Seq<u8>, purpose: Seq<u8>, nonce: Seq<u8>)
    requires
        nonce.len() == 12,
    ensures
        ({
            let c = adaptive_ciphertext(a, p, purpose, nonce);
            let body = aes256gcm_seal(derived_key(a, purpose), nonce, p);
            &&& c.len() == 27 + body.len()
            &&& c.subrange(0, 7) == seq![0x5Au8, 0x41u8, 0x42u8, 0x2Du8, 0x52u8, 0x30u8, 0x31u8]
            &&& c.subrange(7, 15) == spec_u64_to_le_bytes(a.evolution)
            &&& c.subrange(15, 27) == nonce
            &&& c.subrange(27, c.len() as int) == body
        }),
{
    lemma_auto_spec_u64_to_from_le_bytes();
    let c = adaptive_ciphertext(a, p, purpose, nonce);
    assert(spec_u64_to_le_bytes(a.evolution).len() == 8);
    assert(c.subrange(0, 7) =~= seq![0x5Au8, 0x41u8, 0x42u8, 0x2Du8, 0x52u8, 0x30u8, 0x31u8]);
    assert(c.subrange(7, 15) =~= spec_u64_to_le_bytes(a.evolution));
    assert(c.subrange(15, 27) =~= nonce);
    assert(c.subrange(27, c.len() as int) =~= aes256gcm_seal(derived_key(a, purpose), nonce, p));
}

/// The layout of an exported context: 48 bytes, the generation and the
/// evolution counter (8 bytes each, little-endian), then the 32 bytes of context.
pub proof fn lemma_exported_context_layout(a: ZABAdaptiveView)
    requires
        adaptive_view_valid(a),
    ensures
        exported_context(a).len() == 48,
        exported_context(a).subrange(0, 8) == spec_u64_to_le_bytes(a.generation),
        exported_context(a).subrange(8, 16) == spec_u64_to_le_bytes(a.evolution),
        exported_context(a).subrange(16, 48) == a.context,
{
    lemma_auto_spec_u64_to_from_le_bytes();
    let d = exported_context(a);
    assert(spec_u64_to_le_bytes(a.generation).len() == 8);
    assert(d.subrange(0, 8) =~= spec_u64_to_le_bytes(a.generation));
    assert(d.subrange(8, 16) =~= spec_u64_to_le_bytes(a.evolution));
    assert(d.subrange(16, 48) =~= a.context);
}

/// Reading back an exported context gives the key again: the 48 bytes that
/// `export_context` writes are accepted by `import_context`, which rebuilds
/// the same key.
pub proof fn lemma_export_import_context(a: ZABAdaptiveView)
    requires
        adaptive_view_valid(a),
    ensures
        exported_context(a).len() == 48,
        decoded_context(exported_context(a)) == a,
{
    lemma_auto_spec_u64_to_from_le_bytes();
    let d = exported_context(a);
    assert(d.subrange(0, 8) =~= spec_u64_to_le_bytes(a.generation));
    assert(d.subrange(8, 16) =~= spec_u64_to_le_bytes(a.evolution));
    assert(d.subrange(16, 48) =~= a.context);
}

/// Exporting an imported context gives back the first 48 bytes it was read from.
pub proof fn lemma_import_export_context(data: Seq<u8>)
    requires
        data.len() >= 48,
    ensures
        exported_context(decoded_context(data)) == data.subrange(0, 48),
{
    lemma_auto_spec_u64_to_from_le_bytes();
    assert(data.subrange(0, 8).len() == 8);
    assert(spec_u64_to_le_bytes(spec_u64_from_le_bytes(data.subrange(0, 8))) == data.subrange(0, 8));
    assert(spec_u64_to_le_bytes(spec_u64_from_le_bytes(data.subrange(8, 16))) == data.subrange(8, 16));
    assert(exported_context(decoded_context(data)) =~= data.subrange(0, 48));
}

} // verus!
