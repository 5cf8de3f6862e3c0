//! Wrapping a per-file key under a session key.

use vstd::prelude::*;
use vstd::utf8::encode_utf8;

use crate::bytes::{array32, extend_bytes};
use crate::crypto::{
    aead::{aead_accepts_len, decrypt_chunk, encrypt_chunk, fill_random, generate_nonce, xchacha_open, xchacha_seal, Nonce, SymmetricKey},
    error::CryptoError,
    hash::FileId,
};

verus! {

/// A file key encrypted under a session key.
#[derive(Clone, Debug)]
pub struct WrappedFileKey {
    pub nonce: Nonce,
    pub data: Vec<u8>,
}

/// A fresh random file key.
pub fn generate_file_key() -> (r: SymmetricKey) {
    let mut key = [0u8; 32];
    fill_random(&mut key);
    SymmetricKey(key)
}

/// The associated data of a wrapped file key: a domain label, then the file id.
pub open spec fn file_key_aad(file_id: FileId) -> Seq<u8> {
    encode_utf8("etle-file-key-v1"@) + file_id.0@
}

/// Builds the associated data of a wrapped file key.
pub fn build_file_key_aad(file_id: FileId) -> (aad: Vec<u8>)
    ensures
        aad@ == file_key_aad(file_id),
{
    let mut aad: Vec<u8> = Vec::new();
    extend_bytes(&mut aad, "etle-file-key-v1".as_bytes());
    extend_bytes(&mut aad, file_id.as_bytes());
    aad
}

/// `wrapped` decrypts, under the session key and the file's associated data,
/// to the bytes of `file_key`.
pub open spec fn wraps(wrapped: WrappedFileKey, session_key: SymmetricKey, file_id: FileId, file_key: SymmetricKey) -> bool {
    xchacha_open(session_key.0@, wrapped.nonce.0@, wrapped.data@, file_key_aad(file_id)) == Some(file_key.0@)
}

/// What unwrapping gives: the decrypted key when it authenticates and has 32
/// bytes.
pub open spec fn unwrap_result(session_key: SymmetricKey, file_id: FileId, wrapped: WrappedFileKey) -> Result<Seq<u8>, CryptoError> {
    match xchacha_open(session_key.0@, wrapped.nonce.0@, wrapped.data@, file_key_aad(file_id)) {
        None => Err(CryptoError::Decrypt),
        Some(bytes) => if bytes.len() == 32 {
            Ok(bytes)
        } else {
            Err(CryptoError::InvalidWrappedKeyLength)
        },
    }
}

/// Encrypts `file_key` under `session_key` with a fresh nonce, bound to the file id.
pub fn wrap_file_key(session_key: &SymmetricKey, file_id: FileId, file_key: &SymmetricKey) -> (r: Result<WrappedFileKey, CryptoError>)
    ensures
        r matches Ok(w) && wraps(w, *session_key, file_id, *file_key),
        r matches Ok(w) ==> {
            &&& w.data@ == xchacha_seal(session_key.0@, w.nonce.0@, file_key.0@, file_key_aad(file_id))
            &&& w.data@.len() == 48
        },
{
    proof {
        assert(aead_accepts_len(32));
    }
    let nonce = generate_nonce();
    let aad = build_file_key_aad(file_id);
    let data = encrypt_chunk(session_key, nonce, file_key.as_bytes(), aad.as_slice())?;
    Ok(WrappedFileKey { nonce, data })
}

/// Decrypts a wrapped file key.
pub fn unwrap_file_key(session_key: &SymmetricKey, file_id: FileId, wrapped: &WrappedFileKey) -> (r: Result<SymmetricKey, CryptoError>)
    ensures
        match unwrap_result(*session_key, file_id, *wrapped) {
            Ok(bytes) => r matches Ok(k) && k.0@ == bytes,
            Err(e) => r matches Err(e2) && e2 == e,
        },
{
    let aad = build_file_key_aad(file_id);
    let bytes = decrypt_chunk(session_key, wrapped.nonce, wrapped.data.as_slice(), aad.as_slice())?;
    if bytes.len() != 32 {
        return Err(CryptoError::InvalidWrappedKeyLength);
    }
    Ok(SymmetricKey(array32(bytes.as_slice())))
}

/// Unwrapping a key that `wrap_file_key` wrapped, under the same session key and
/// file id, gives the file key back.
pub proof fn lemma_unwrap_of_wrap(wrapped: WrappedFileKey, session_key: SymmetricKey, file_id: FileId, file_key: SymmetricKey)
    requires
        wraps(wrapped, session_key, file_id, file_key),
    ensures
        unwrap_result(session_key, file_id, wrapped) matches Ok(k) && k == file_key.0@,
{
}

} // verus!
