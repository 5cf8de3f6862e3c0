//! The manifest of an encrypted file.

use vstd::prelude::*;

use crate::crypto::{aead::Nonce, hash::{ChunkHash, FileId}};

verus! {

/// What is known of one encrypted chunk.
#[derive(Clone, Copy, Debug, PartialEq, Eq)]
pub struct ChunkMeta {
    pub index: u32,
    pub plain_size: u64,
    pub encrypted_size: u64,
    pub nonce: Nonce,
    pub blake3_hash: ChunkHash,
}

/// The manifest of an encrypted file: its id, name, size, chunk size and the
/// metadata of its chunks in order.
#[derive(Clone, Debug, PartialEq, Eq)]
pub struct Manifest {
    pub file_id: FileId,
    pub file_name: String,
    pub file_size: u64,
    pub chunk_size: u64,
    pub chunks: Vec<ChunkMeta>,
}

} // verus!
