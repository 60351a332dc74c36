//! QWARTZ: an educational cryptographic toolkit with verified key handling,
//! framing and synchronisation bookkeeping.

pub mod cipher;
pub mod cli;
pub mod clock;
pub mod digest;
pub mod entropy;
mod frame;
pub mod sync;
pub mod zab_k;
pub mod zab_r;

pub use cli::Command;
pub use entropy::EntropyEngine;
pub use sync::ZABSync;
pub use zab_k::{KeyType, ZABKey};
pub use zab_r::ZABAdaptive;
use vstd::prelude::*;

verus! {

/// The way a key is obtained.
#[derive(Debug, Clone, Copy, PartialEq, Eq)]
pub enum ZABMode {
    /// Keys generated from environment entropy.
    Adaptive,
    /// Stored, key-based mode.
    KeyBased,
    /// Combination of both.
    Fusion,
}

/// Errors of the library; each carries a human-readable detail where it has one.
#[derive(Debug)]
pub enum QwartzError {
    EntropyUnavailable(String),
    KeyGenFailed(String),
    EncryptionFailed(String),
    DecryptionFailed(String),
    SyncError(String),
    InvalidKey(String),
    VerificationFailed,
}

/// An error with its detail as a character sequence.
pub enum QwartzErrorView {
    EntropyUnavailable(Seq<char>),
    KeyGenFailed(Seq<char>),
    EncryptionFailed(Seq<char>),
    DecryptionFailed(Seq<char>),
    SyncError(Seq<char>),
    InvalidKey(Seq<char>),
    VerificationFailed,
}

impl View for QwartzError {
    type V = QwartzErrorView;

    open spec fn view(&self) -> QwartzErrorView {
        match self {
            QwartzError::EntropyUnavailable(m) => QwartzErrorView::EntropyUnavailable(m@),
            QwartzError::KeyGenFailed(m) => QwartzErrorView::KeyGenFailed(m@),
            QwartzError::EncryptionFailed(m) => QwartzErrorView::EncryptionFailed(m@),
            QwartzError::DecryptionFailed(m) => QwartzErrorView::DecryptionFailed(m@),
            QwartzError::SyncError(m) => QwartzErrorView::SyncError(m@),
            QwartzError::InvalidKey(m) => QwartzErrorView::InvalidKey(m@),
            QwartzError::VerificationFailed => QwartzErrorView::VerificationFailed,
        }
    }
}

/// The text of an error: a fixed prefix naming the kind of failure, then the detail.
pub open spec fn error_message(e: QwartzErrorView) -> Seq<char> {
    match e {
        QwartzErrorView::EntropyUnavailable(m) => "Entropy source unavailable: "@ + m,
        QwartzErrorView::KeyGenFailed(m) => "Key generation failed: "@ + m,
        QwartzErrorView::EncryptionFailed(m) => "Encryption failed: "@ + m,
        QwartzErrorView::DecryptionFailed(m) => "Decryption failed: "@ + m,
        QwartzErrorView::SyncError(m) => "Sync protocol error: "@ + m,
        QwartzErrorView::InvalidKey(m) => "Invalid key format: "@ + m,
        QwartzErrorView::VerificationFailed => "Verification failed"@,
    }
}

impl QwartzError {
    /// The error's text (see `error_message`).
    pub fn message(&self) -> (s: String)
        ensures
            s@ == error_message(self@),
    {
        let (prefix, detail) = match self {
            QwartzError::EntropyUnavailable(m) => ("Entropy source unavailable: ", m.as_str()),
            QwartzError::KeyGenFailed(m) => ("Key generation failed: ", m.as_str()),
            QwartzError::EncryptionFailed(m) => ("Encryption failed: ", m.as_str()),
            QwartzError::DecryptionFailed(m) => ("Decryption failed: ", m.as_str()),
            QwartzError::SyncError(m) => ("Sync protocol error: ", m.as_str()),
            QwartzError::InvalidKey(m) => ("Invalid key format: ", m.as_str()),
            QwartzError::VerificationFailed => {
                return String::from_str("Verification failed");
            },
        };
        let mut s = String::from_str(prefix);
        s.append(detail);
        s
    }
}

/// Whether two byte-string results are the same: both `Ok` with the same bytes,
/// or both `Err` with the same error and detail.
pub open spec fn same_outcome(r1: Result<Vec<u8>, QwartzError>, r2: Result<Vec<u8>, QwartzError>) -> bool {
    match (r1, r2) {
        (Ok(a), Ok(b)) => a@ == b@,
        (Err(e1), Err(e2)) => e1@ == e2@,
        _ => false,
    }
}

/// The protocol generation and version.
pub const ZAB_VERSION: &'static str = "ZAB-GenZ-0.1.0";

/// Initialises the library: warms the entropy sources up. Always succeeds.
pub fn init() -> (r: Result<(), QwartzError>)
    ensures
        r is Ok,
{
    EntropyEngine::init()?;
    Ok(())
}

} // verus!
