//! Errors of the cryptographic operations.

use vstd::prelude::*;

verus! {

/// Why a cryptographic operation failed.
#[derive(Debug, Clone, Copy, PartialEq, Eq, Structural)]
pub enum CryptoError {
    /// Authenticated encryption refused the message.
    Encrypt,
    /// The ciphertext, nonce, key or associated data did not authenticate.
    Decrypt,
    /// Key agreement with the peer's public key gave the all-zero secret.
    InvalidPublicKey,
    /// An unwrapped file key did not have 32 bytes.
    InvalidWrappedKeyLength,
}

impl CryptoError {
    /// The message of the error.
    pub fn message(&self) -> (s: &'static str)
        ensures
            s@ == match self {
                CryptoError::Encrypt => "AEAD encryption failed"@,
                CryptoError::Decrypt => "AEAD decryption failed"@,
                CryptoError::InvalidPublicKey => "invalid public key"@,
                CryptoError::InvalidWrappedKeyLength => "invalid wrapped file key length"@,
            },
    {
        match self {
            CryptoError::Encrypt => "AEAD encryption failed",
            CryptoError::Decrypt => "AEAD decryption failed",
            CryptoError::InvalidPublicKey => "invalid public key",
            CryptoError::InvalidWrappedKeyLength => "invalid wrapped file key length",
        }
    }
}

} // verus!
