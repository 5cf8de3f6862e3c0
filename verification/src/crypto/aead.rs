//! XChaCha20-Poly1305 encryption of chunks.

use vstd::prelude::*;
use vstd::bytes::{spec_u32_to_le_bytes, spec_u64_to_le_bytes, u32_to_le_bytes, u64_to_le_bytes};

use chacha20poly1305::aead::{Aead, KeyInit};

use crate::bytes::{bytes_equal, extend_bytes};
use crate::crypto::{error::CryptoError, hash::FileId};

verus! {

/// A 256-bit symmetric key.
#[derive(Clone, Copy, Debug)]
pub struct SymmetricKey(pub [u8; 32]);

/// A 192-bit XChaCha20 nonce.
#[derive(Clone, Copy, Debug)]
pub struct Nonce(pub [u8; 24]);

impl SymmetricKey {
    /// The 32 key bytes.
    pub fn as_bytes(&self) -> (r: &[u8; 32])
        ensures
            r@ == self.0@,
    {
        &self.0
    }
}

impl Nonce {
    /// The 24 nonce bytes.
    pub fn as_bytes(&self) -> (r: &[u8; 24])
        ensures
            r@ == self.0@,
    {
        &self.0
    }
}

impl PartialEq for SymmetricKey {
    fn eq(&self, other: &Self) -> (r: bool) {
        bytes_equal(&self.0, &other.0)
    }
}

impl Eq for SymmetricKey {}

impl vstd::std_specs::cmp::PartialEqSpecImpl for SymmetricKey {
    open spec fn obeys_eq_spec() -> bool {
        true
    }

    open spec fn eq_spec(&self, other: &Self) -> bool {
        self.0@ == other.0@
    }
}

impl PartialEq for Nonce {
    fn eq(&self, other: &Self) -> (r: bool) {
        bytes_equal(&self.0, &other.0)
    }
}

impl Eq for Nonce {}

impl vstd::std_specs::cmp::PartialEqSpecImpl for Nonce {
    open spec fn obeys_eq_spec() -> bool {
        true
    }

    open spec fn eq_spec(&self, other: &Self) -> bool {
        self.0@ == other.0@
    }
}

/// Fills `buf` from the operating system's random source (`rand_core::OsRng`).
/// Nothing is claimed of the bytes but that the length stays.
#[verifier::external_body]
pub(crate) fn fill_random(buf: &mut [u8])
    ensures
        final(buf)@.len() == old(buf)@.len(),
{
    rand_core::RngCore::fill_bytes(&mut rand_core::OsRng, buf);
}

/// A fresh random nonce.
pub fn generate_nonce() -> (r: Nonce) {
    let mut nonce = [0u8; 24];
    fill_random(&mut nonce);
    Nonce(nonce)
}

/// The associated data bound to an encrypted chunk: the file id, then the
/// chunk index and the plaintext size, little-endian.
pub open spec fn chunk_aad(file_id: FileId, chunk_index: u32, plain_size: u64) -> Seq<u8> {
    file_id.0@ + spec_u32_to_le_bytes(chunk_index) + spec_u64_to_le_bytes(plain_size)
}

/// Builds the associated data of a chunk.
pub fn build_chunk_aad(file_id: FileId, chunk_index: u32, plain_size: u64) -> (aad: Vec<u8>)
    ensures
        aad@ == chunk_aad(file_id, chunk_index, plain_size),
{
    let mut aad: Vec<u8> = Vec::new();
    extend_bytes(&mut aad, file_id.as_bytes());
    let index_bytes = u32_to_le_bytes(chunk_index);
    extend_bytes(&mut aad, index_bytes.as_slice());
    let size_bytes = u64_to_le_bytes(plain_size);
    extend_bytes(&mut aad, size_bytes.as_slice());
    aad
}

/// The XChaCha20-Poly1305 ciphertext (with its 16-byte tag appended) of a
/// plaintext under a key, nonce and associated data.
pub uninterp spec fn xchacha_seal(key: Seq<u8>, nonce: Seq<u8>, plaintext: Seq<u8>, aad: Seq<u8>) -> Seq<u8>;

/// The plaintext that XChaCha20-Poly1305 recovers from a ciphertext, or `None`
/// when the tag does not authenticate.
pub uninterp spec fn xchacha_open(key: Seq<u8>, nonce: Seq<u8>, ciphertext: Seq<u8>, aad: Seq<u8>) -> Option<Seq<u8>>;

/// Whether XChaCha20-Poly1305 accepts a plaintext of this length (fewer than
/// `u32::MAX` blocks of 64 bytes).
pub open spec fn aead_accepts_len(len: nat) -> bool {
    len / 64 < u32::MAX
}

/// Calls `XChaCha20Poly1305::encrypt` (`aead::Aead`). The contract claims: it
/// fails exactly when the message has `u32::MAX` or more 64-byte blocks; the
/// ciphertext is the plaintext length plus the 16-byte tag; and decryption of
/// that ciphertext with the same key, nonce and associated data gives the
/// plaintext back (AEAD correctness, as the crate's documentation shows it).
#[verifier::external_body]
fn xchacha_encrypt(key: &[u8; 32], nonce: &[u8; 24], plaintext: &[u8], aad: &[u8]) -> (r: Result<Vec<u8>, CryptoError>)
    ensures
        r is Ok <==> aead_accepts_len(plaintext@.len()),
        r matches Err(e) ==> e == CryptoError::Encrypt,
        r matches Ok(c) ==> {
            &&& c@ == xchacha_seal(key@, nonce@, plaintext@, aad@)
            &&& c@.len() == plaintext@.len() + 16
            &&& xchacha_open(key@, nonce@, c@, aad@) == Some(plaintext@)
        },
{
    let cipher = chacha20poly1305::XChaCha20Poly1305::new(chacha20poly1305::Key::from_slice(key));
    let nonce = chacha20poly1305::XNonce::from_slice(nonce);
    cipher.encrypt(nonce, chacha20poly1305::aead::Payload { msg: plaintext, aad }).map_err(|_| CryptoError::Encrypt)
}

/// Calls `XChaCha20Poly1305::decrypt` (`aead::Aead`). The contract names the
/// outcome `xchacha_open` of the arguments, and claims that a recovered
/// plaintext is 16 bytes shorter than the ciphertext.
#[verifier::external_body]
fn xchacha_decrypt(key: &[u8; 32], nonce: &[u8; 24], ciphertext: &[u8], aad: &[u8]) -> (r: Result<Vec<u8>, CryptoError>)
    ensures
        r matches Ok(p) ==> xchacha_open(key@, nonce@, ciphertext@, aad@) == Some(p@) && p@.len() + 16 == ciphertext@.len(),
        r matches Err(e) ==> xchacha_open(key@, nonce@, ciphertext@, aad@) is None && e == CryptoError::Decrypt,
{
    let cipher = chacha20poly1305::XChaCha20Poly1305::new(chacha20poly1305::Key::from_slice(key));
    let nonce = chacha20poly1305::XNonce::from_slice(nonce);
    cipher.decrypt(nonce, chacha20poly1305::aead::Payload { msg: ciphertext, aad }).map_err(|_| CryptoError::Decrypt)
}

/// Encrypts one chunk.
pub fn encrypt_chunk(key: &SymmetricKey, nonce: Nonce, plaintext: &[u8], aad: &[u8]) -> (r: Result<Vec<u8>, CryptoError>)
    ensures
        r is Ok <==> aead_accepts_len(plaintext@.len()),
        r matches Err(e) ==> e == CryptoError::Encrypt,
        r matches Ok(c) ==> {
            &&& c@ == xchacha_seal(key.0@, nonce.0@, plaintext@, aad@)
            &&& c@.len() == plaintext@.len() + 16
            &&& xchacha_open(key.0@, nonce.0@, c@, aad@) == Some(plaintext@)
        },
{
    xchacha_encrypt(key.as_bytes(), nonce.as_bytes(), plaintext, aad)
}

/// Decrypts one chunk; fails with `CryptoError::Decrypt` when it does not
/// authenticate.
pub fn decrypt_chunk(key: &SymmetricKey, nonce: Nonce, ciphertext: &[u8], aad: &[u8]) -> (r: Result<Vec<u8>, CryptoError>)
    ensures
        r matches Ok(p) ==> xchacha_open(key.0@, nonce.0@, ciphertext@, aad@) == Some(p@),
        r matches Err(e) ==> xchacha_open(key.0@, nonce.0@, ciphertext@, aad@) is None && e == CryptoError::Decrypt,
{
    xchacha_decrypt(key.as_bytes(), nonce.as_bytes(), ciphertext, aad)
}

} // verus!
