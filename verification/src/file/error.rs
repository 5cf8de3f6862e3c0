//! Errors of the file formats.

use vstd::prelude::*;

use crate::crypto::error::CryptoError;
use crate::file::descriptor::ShareId;

verus! {

/// Why a file operation of the library failed.
#[derive(Debug, Clone, PartialEq, Eq)]
pub enum FileError {
    /// A cryptographic operation failed.
    Crypto(CryptoError),
    /// The chunk size is not usable (zero).
    InvalidChunkSize(usize),
    /// More chunks than a `u32` index can count.
    TooManyChunks,
    /// The package is too large to represent safely.
    PackageTooLarge,
    /// The manifest names a chunk that is missing.
    MissingChunk(u32),
    /// An encrypted chunk does not match its hash.
    ChunkHashMismatch(u32),
    /// An encrypted chunk does not have its recorded size.
    ChunkSizeMismatch { index: u32, expected: u64, actual: u64 },
    /// A package input is neither a file nor a directory.
    InvalidPackageInput(String),
    /// A package path does not lie under the package root.
    PathOutsideRoot { path: String, root: String },
    /// The package has no files.
    EmptyPackage,
    /// A descriptor's share id is not the one expected.
    ShareIdMismatch { expected: ShareId, actual: ShareId },
    /// The reassembled file does not hash to its file id.
    FinalHashMismatch,
}

impl From<CryptoError> for FileError {
    fn from(e: CryptoError) -> (r: FileError) {
        FileError::Crypto(e)
    }
}

impl vstd::std_specs::convert::FromSpecImpl<CryptoError> for FileError {
    open spec fn obeys_from_spec() -> bool {
        true
    }

    open spec fn from_spec(e: CryptoError) -> FileError {
        FileError::Crypto(e)
    }
}

} // verus!
