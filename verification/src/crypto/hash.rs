//! BLAKE3 digests of files and chunks.

use vstd::prelude::*;

use crate::bytes::{bytes_equal, hex_lower, hex_lower_chars, string_from_chars};

verus! {

/// The BLAKE3 digest of a whole file.
#[derive(Clone, Copy, Debug, Hash)]
pub struct FileId(pub [u8; 32]);

/// The BLAKE3 digest of one (encrypted) chunk.
#[derive(Clone, Copy, Debug, Hash)]
pub struct ChunkHash(pub [u8; 32]);

impl FileId {
    /// The 32 digest bytes.
    pub fn as_bytes(&self) -> (r: &[u8; 32])
        ensures
            r@ == self.0@,
    {
        &self.0
    }

    /// Lowercase hexadecimal text of the digest.
    pub fn to_string(&self) -> (s: String)
        ensures
            s@ == hex_lower(self.0@),
    {
        let chars = hex_lower_chars(&self.0);
        string_from_chars(&chars)
    }
}

impl ChunkHash {
    /// The 32 digest bytes.
    pub fn as_bytes(&self) -> (r: &[u8; 32])
        ensures
            r@ == self.0@,
    {
        &self.0
    }

    /// Lowercase hexadecimal text of the digest.
    pub fn to_string(&self) -> (s: String)
        ensures
            s@ == hex_lower(self.0@),
    {
        let chars = hex_lower_chars(&self.0);
        string_from_chars(&chars)
    }
}

impl PartialEq for FileId {
    fn eq(&self, other: &Self) -> (r: bool) {
        bytes_equal(&self.0, &other.0)
    }
}

impl Eq for FileId {}

impl vstd::std_specs::cmp::PartialEqSpecImpl for FileId {
    open spec fn obeys_eq_spec() -> bool {
        true
    }

    open spec fn eq_spec(&self, other: &Self) -> bool {
        self.0@ == other.0@
    }
}

impl PartialEq for ChunkHash {
    fn eq(&self, other: &Self) -> (r: bool) {
        bytes_equal(&self.0, &other.0)
    }
}

impl Eq for ChunkHash {}

impl vstd::std_specs::cmp::PartialEqSpecImpl for ChunkHash {
    open spec fn obeys_eq_spec() -> bool {
        true
    }

    open spec fn eq_spec(&self, other: &Self) -> bool {
        self.0@ == other.0@
    }
}

/// The BLAKE3 hash (32 bytes) of a byte string, as `blake3::hash` computes it.
pub uninterp spec fn blake3_digest(input: Seq<u8>) -> Seq<u8>;

/// Calls `blake3::hash`; the contract names its output `blake3_digest` of the
/// input. The digest is a function of the input alone.
#[verifier::external_body]
fn blake3_hash(input: &[u8]) -> (r: [u8; 32])
    ensures
        r@ == blake3_digest(input@),
{
    *blake3::hash(input).as_bytes()
}

/// The BLAKE3 digest of `bytes`.
pub fn hash_bytes(bytes: &[u8]) -> (r: [u8; 32])
    ensures
        r@ == blake3_digest(bytes@),
{
    blake3_hash(bytes)
}

/// The file id of a file whose content is `bytes`.
pub fn hash_file_id(bytes: &[u8]) -> (r: FileId)
    ensures
        r.0@ == blake3_digest(bytes@),
{
    FileId(blake3_hash(bytes))
}

/// The hash of an encrypted chunk.
pub fn hash_chunk(bytes: &[u8]) -> (r: ChunkHash)
    ensures
        r.0@ == blake3_digest(bytes@),
{
    ChunkHash(blake3_hash(bytes))
}

} // verus!
