//! Encrypting a file chunk by chunk, and decrypting it back.

use vstd::prelude::*;
use std::collections::BTreeMap;

use crate::bytes::bytes_equal;
use crate::crypto::aead::{
    aead_accepts_len, build_chunk_aad, chunk_aad, decrypt_chunk, encrypt_chunk, generate_nonce,
    xchacha_open, xchacha_seal, SymmetricKey,
};
use crate::crypto::error::CryptoError;
use crate::crypto::hash::{blake3_digest, hash_bytes, hash_chunk, hash_file_id, FileId};
use crate::file::chunker::{
    chunk_views, is_split_of, join_chunks, joined, lemma_join_of_split, split_into_chunks,
    split_pieces, PlainChunk,
};
use crate::file::error::FileError;
use crate::file::manifest::{ChunkMeta, Manifest};
use crate::bytes::{zero_padded, zero_padded_string};
use crate::path::{adjoined, ends_in_parent, ends_with, is_separator, lemma_adjoined_no_prefix, path_text, written_path, no_verbatim_prefix, normal_name, path_file_name, path_join, path_with_file_name, plain_name};

verus! {

/// The file name of the manifest in a debug workspace.
pub const DEBUG_MANIFEST_FILE_NAME: &'static str = "manifest.bin";
/// The directory of the chunks in a debug workspace.
pub const DEBUG_CHUNKS_DIR_NAME: &'static str = "chunks";
/// The extension of a chunk file in a debug workspace.
pub const DEBUG_CHUNK_EXTENSION: &'static str = "etle";

/// One encrypted chunk and its position.
#[derive(Clone, Debug, PartialEq, Eq)]
pub struct EncryptedChunk {
    pub index: u32,
    pub data: Vec<u8>,
}

/// An encrypted file: its manifest and its encrypted chunks by index.
#[derive(Clone, Debug, PartialEq, Eq)]
pub struct EncryptedFile {
    pub manifest: Manifest,
    pub chunks: BTreeMap<u32, EncryptedChunk>,
}

/// Chunk `i` of `f` is the encryption of the `i`th piece of `data` as
/// `encrypt_bytes` makes it: its metadata records the index, the sizes, the
/// nonce and the hash of the ciphertext, and the ciphertext is stored under
/// the same index.
pub open spec fn chunk_encrypted(
    metas: Seq<ChunkMeta>,
    chunks: Map<u32, EncryptedChunk>,
    file_id: FileId,
    key: Seq<u8>,
    pieces: Seq<Seq<u8>>,
    i: int,
) -> bool {
    let meta = metas[i];
    let piece = pieces[i];
    let aad = chunk_aad(file_id, i as u32, piece.len() as u64);
    &&& meta.index == i
    &&& meta.plain_size == piece.len()
    &&& chunks.contains_key(i as u32)
    &&& chunks[i as u32].index == i
    &&& chunks[i as u32].data@ == xchacha_seal(key, meta.nonce.0@, piece, aad)
    &&& xchacha_open(key, meta.nonce.0@, chunks[i as u32].data@, aad) == Some(piece)
    &&& meta.encrypted_size == chunks[i as u32].data@.len()
    &&& meta.blake3_hash.0@ == blake3_digest(chunks[i as u32].data@)
}

/// `f` is the encryption of the file `data` named `name` under `key`, in
/// chunks of `chunk_size` bytes.
pub open spec fn encrypted_from(f: EncryptedFile, name: Seq<char>, data: Seq<u8>, key: Seq<u8>, chunk_size: nat) -> bool {
    let pieces = split_pieces(data, chunk_size);
    &&& f.manifest.file_id.0@ == blake3_digest(data)
    &&& f.manifest.file_name@ == name
    &&& f.manifest.file_size == data.len()
    &&& f.manifest.chunk_size == chunk_size
    &&& f.manifest.chunks@.len() == pieces.len()
    &&& forall|i: int| 0 <= i < pieces.len() ==> #[trigger] chunk_encrypted(f.manifest.chunks@, f.chunks@, f.manifest.file_id, key, pieces, i)
    &&& forall|k: u32| f.chunks@.contains_key(k) ==> k < pieces.len()
}

/// What decrypting the chunk that `meta` describes gives: the chunk must be
/// present, match its hash and authenticate.
pub open spec fn open_chunk(meta: ChunkMeta, chunks: Map<u32, EncryptedChunk>, file_id: FileId, key: Seq<u8>) -> Result<Seq<u8>, FileError> {
    if !chunks.contains_key(meta.index) {
        Err(FileError::MissingChunk(meta.index))
    } else if blake3_digest(chunks[meta.index].data@) != meta.blake3_hash.0@ {
        Err(FileError::ChunkHashMismatch(meta.index))
    } else {
        match xchacha_open(key, meta.nonce.0@, chunks[meta.index].data@, chunk_aad(file_id, meta.index, meta.plain_size)) {
            None => Err(FileError::Crypto(CryptoError::Decrypt)),
            Some(plain) => Ok(plain),
        }
    }
}

/// The plaintext chunks of `metas`, in manifest order, or the first failure.
pub open spec fn open_chunks(metas: Seq<ChunkMeta>, chunks: Map<u32, EncryptedChunk>, file_id: FileId, key: Seq<u8>) -> Result<Seq<(u32, Seq<u8>)>, FileError>
    decreases metas.len(),
{
    if metas.len() == 0 {
        Ok(Seq::empty())
    } else {
        match open_chunks(metas.drop_last(), chunks, file_id, key) {
            Err(e) => Err(e),
            Ok(done) => match open_chunk(metas.last(), chunks, file_id, key) {
                Err(e) => Err(e),
                Ok(plain) => Ok(done.push((metas.last().index, plain))),
            },
        }
    }
}

/// What decrypting a whole file gives: its chunks joined in index order, when
/// every chunk opens and the result hashes to the file id.
pub open spec fn decrypt_outcome(manifest: Manifest, chunks: Map<u32, EncryptedChunk>, key: Seq<u8>) -> Result<Seq<u8>, FileError> {
    match open_chunks(manifest.chunks@, chunks, manifest.file_id, key) {
        Err(e) => Err(e),
        Ok(plain) => if blake3_digest(joined(plain)) == manifest.file_id.0@ {
            Ok(joined(plain))
        } else {
            Err(FileError::FinalHashMismatch)
        },
    }
}

/// Once a prefix of the manifest fails, the whole manifest fails the same way.
proof fn lemma_open_chunks_failed(metas: Seq<ChunkMeta>, k: int, chunks: Map<u32, EncryptedChunk>, file_id: FileId, key: Seq<u8>)
    requires
        0 <= k <= metas.len(),
        open_chunks(metas.take(k), chunks, file_id, key) is Err,
    ensures
        open_chunks(metas, chunks, file_id, key) == open_chunks(metas.take(k), chunks, file_id, key),
    decreases metas.len(),
{
    if k < metas.len() {
        assert(metas.drop_last().take(k) =~= metas.take(k));
        lemma_open_chunks_failed(metas.drop_last(), k, chunks, file_id, key);
    } else {
        assert(metas.take(k) =~= metas);
    }
}

/// Encrypts the file `data`, named `file_name`, under `key` in chunks of
/// `chunk_size` bytes, each with a fresh random nonce and bound to the file
/// id, index and size. Fails on a zero chunk size, on more chunks than a
/// `u32` index counts, and when a chunk is too long for the cipher.
pub fn encrypt_bytes(file_name: String, data: &[u8], key: &SymmetricKey, chunk_size: usize) -> (r: Result<EncryptedFile, FileError>)
    ensures
        chunk_size == 0 ==> (r matches Err(e) && e == FileError::InvalidChunkSize(chunk_size)),
        chunk_size > 0 && split_pieces(data@, chunk_size as nat).len() > u32::MAX ==> (r matches Err(e) && e == FileError::TooManyChunks),
        chunk_size > 0 && split_pieces(data@, chunk_size as nat).len() <= u32::MAX ==> {
            let pieces = split_pieces(data@, chunk_size as nat);
            &&& (exists|i: int| 0 <= i < pieces.len() && !aead_accepts_len(#[trigger] pieces[i].len())) ==> (r matches Err(e) && e == FileError::Crypto(CryptoError::Encrypt))
            &&& (forall|i: int| 0 <= i < pieces.len() ==> aead_accepts_len(#[trigger] pieces[i].len())) ==> (r matches Ok(f) && encrypted_from(f, file_name@, data@, key.0@, chunk_size as nat))
        },
{
    let file_id = hash_file_id(data);
    let plain_chunks = match split_into_chunks(data, chunk_size) {
        Ok(chunks) => chunks,
        Err(e) => {
            return Err(e);
        },
    };
    let ghost size = chunk_size as nat;
    let ghost pieces = split_pieces(data@, size);
    let mut chunks: BTreeMap<u32, EncryptedChunk> = BTreeMap::new();
    let mut metas: Vec<ChunkMeta> = Vec::new();
    let mut i: usize = 0;
    while i < plain_chunks.len()
        invariant
            size == chunk_size as nat,
            pieces == split_pieces(data@, size),
            is_split_of(chunk_views(plain_chunks@), data@, size),
            plain_chunks@.len() <= u32::MAX,
            file_id.0@ == blake3_digest(data@),
            i <= plain_chunks@.len(),
            metas@.len() == i,
            forall|j: int| 0 <= j < pieces.len() ==> aead_accepts_len(#[trigger] pieces[j].len()) || j >= i,
            forall|j: int| 0 <= j < i ==> #[trigger] chunk_encrypted(metas@, chunks@, file_id, key.0@, pieces, j),
            forall|k: u32| chunks@.contains_key(k) ==> k < i,
        decreases plain_chunks@.len() - i,
    {
        let chunk = &plain_chunks[i];
        proof {
            assert(chunk_views(plain_chunks@)[i as int] == (chunk.index, chunk.data@));
        }
        let nonce = generate_nonce();
        let aad = build_chunk_aad(file_id, chunk.index, chunk.data.len() as u64);
        let ciphertext = match encrypt_chunk(key, nonce, chunk.data.as_slice(), aad.as_slice()) {
            Ok(c) => c,
            Err(e) => {
                return Err(FileError::Crypto(e));
            },
        };
        let encrypted_hash = hash_chunk(ciphertext.as_slice());
        let meta = ChunkMeta {
            index: chunk.index,
            plain_size: chunk.data.len() as u64,
            encrypted_size: ciphertext.len() as u64,
            nonce,
            blake3_hash: encrypted_hash,
        };
        let ghost old_metas = metas@;
        let ghost old_chunks = chunks@;
        metas.push(meta);
        chunks.insert(chunk.index, EncryptedChunk { index: chunk.index, data: ciphertext });
        proof {
            assert forall|j: int| 0 <= j < i + 1 implies #[trigger] chunk_encrypted(metas@, chunks@, file_id, key.0@, pieces, j) by {
                if j < i {
                    assert(chunk_encrypted(old_metas, old_chunks, file_id, key.0@, pieces, j));
                    assert(metas@[j] == old_metas[j]);
                    assert(j as u32 != i as u32);
                }
            }
        }
        i = i + 1;
    }
    let file_size = data.len() as u64;
    let manifest = Manifest { file_id, file_name, file_size, chunk_size: chunk_size as u64, chunks: metas };
    Ok(EncryptedFile { manifest, chunks })
}

/// Decrypts a file: opens each chunk of the manifest in order (the chunk must
/// be present, match its hash and authenticate), joins the plaintexts in index
/// order, and checks the result against the file id.
pub fn decrypt_to_bytes(encrypted: &EncryptedFile, key: &SymmetricKey) -> (r: Result<Vec<u8>, FileError>)
    ensures
        match decrypt_outcome(encrypted.manifest, encrypted.chunks@, key.0@) {
            Ok(data) => r matches Ok(out) && out@ == data,
            Err(e) => r matches Err(e2) && e2 == e,
        },
{
    let metas = &encrypted.manifest.chunks;
    let file_id = encrypted.manifest.file_id;
    let ghost map = encrypted.chunks@;
    let mut plain_chunks: Vec<PlainChunk> = Vec::new();
    let mut i: usize = 0;
    while i < metas.len()
        invariant
            metas@ == encrypted.manifest.chunks@,
            file_id == encrypted.manifest.file_id,
            map == encrypted.chunks@,
            i <= metas@.len(),
            open_chunks(metas@.take(i as int), map, file_id, key.0@) matches Ok(done) && done == chunk_views(plain_chunks@),
        decreases metas@.len() - i,
    {
        let meta = &metas[i];
        proof {
            assert(metas@.take(i + 1).drop_last() =~= metas@.take(i as int));
            assert(metas@.take(i + 1).last() == *meta);
        }
        let encrypted_chunk = match encrypted.chunks.get(&meta.index) {
            Some(c) => c,
            None => {
                proof {
                    lemma_open_chunks_failed(metas@, i + 1, map, file_id, key.0@);
                }
                return Err(FileError::MissingChunk(meta.index));
            },
        };
        let actual_hash = hash_chunk(encrypted_chunk.data.as_slice());
        if !bytes_equal(&actual_hash.0, &meta.blake3_hash.0) {
            proof {
                lemma_open_chunks_failed(metas@, i + 1, map, file_id, key.0@);
            }
            return Err(FileError::ChunkHashMismatch(meta.index));
        }
        let aad = build_chunk_aad(file_id, meta.index, meta.plain_size);
        let plaintext = match decrypt_chunk(key, meta.nonce, encrypted_chunk.data.as_slice(), aad.as_slice()) {
            Ok(p) => p,
            Err(e) => {
                proof {
                    lemma_open_chunks_failed(metas@, i + 1, map, file_id, key.0@);
                }
                return Err(FileError::Crypto(e));
            },
        };
        let ghost before = plain_chunks@;
        plain_chunks.push(PlainChunk { index: meta.index, data: plaintext });
        proof {
            assert(chunk_views(plain_chunks@) =~= chunk_views(before).push((meta.index, plaintext@)));
        }
        i = i + 1;
    }
    proof {
        assert(metas@.take(metas@.len() as int) =~= metas@);
    }
    let output = join_chunks(plain_chunks.as_slice());
    let output_hash = hash_bytes(output.as_slice());
    if !bytes_equal(&output_hash, &file_id.0) {
        return Err(FileError::FinalHashMismatch);
    }
    Ok(output)
}

/// The plaintext chunks of a faithfully encrypted file open, in order, to the
/// pieces of its data.
proof fn lemma_open_encrypted_prefix(f: EncryptedFile, name: Seq<char>, data: Seq<u8>, key: Seq<u8>, chunk_size: nat, k: int)
    requires
        encrypted_from(f, name, data, key, chunk_size),
        0 <= k <= f.manifest.chunks@.len(),
    ensures
        open_chunks(f.manifest.chunks@.take(k), f.chunks@, f.manifest.file_id, key) matches Ok(done)
            && done == Seq::new(k as nat, |j: int| (j as u32, split_pieces(data, chunk_size)[j])),
    decreases k,
{
    let pieces = split_pieces(data, chunk_size);
    let metas = f.manifest.chunks@;
    if k == 0 {
        assert(Seq::new(0, |j: int| (j as u32, pieces[j])) =~= Seq::<(u32, Seq<u8>)>::empty());
    } else {
        lemma_open_encrypted_prefix(f, name, data, key, chunk_size, k - 1);
        assert(metas.take(k).drop_last() =~= metas.take(k - 1));
        assert(chunk_encrypted(metas, f.chunks@, f.manifest.file_id, key, pieces, k - 1));
        assert(metas.take(k).last() == metas[k - 1]);
        assert(Seq::new(k as nat, |j: int| (j as u32, pieces[j])) =~= Seq::new((k - 1) as nat, |j: int| (j as u32, pieces[j])).push(((k - 1) as u32, pieces[k - 1])));
    }
}

/// Decrypting what `encrypt_bytes` produced, with the same key, gives the
/// original data back.
pub proof fn lemma_decrypt_of_encrypt(f: EncryptedFile, name: Seq<char>, data: Seq<u8>, key: Seq<u8>, chunk_size: nat)
    requires
        chunk_size > 0,
        encrypted_from(f, name, data, key, chunk_size),
    ensures
        decrypt_outcome(f.manifest, f.chunks@, key) matches Ok(out) && out == data,
{
    let pieces = split_pieces(data, chunk_size);
    let n = f.manifest.chunks@.len();
    lemma_open_encrypted_prefix(f, name, data, key, chunk_size, n as int);
    assert(f.manifest.chunks@.take(n as int) =~= f.manifest.chunks@);
    let plain = Seq::new(n, |j: int| (j as u32, pieces[j]));
    assert forall|i: int| 0 <= i < plain.len() implies (#[trigger] plain[i]).0 == i && plain[i].1 == pieces[i] by {
        assert(chunk_encrypted(f.manifest.chunks@, f.chunks@, f.manifest.file_id, key, pieces, i));
    }
    assert(is_split_of(plain, data, chunk_size));
    lemma_join_of_split(plain, data, chunk_size);
}

/// The file name of chunk `index` in a debug workspace: the index in decimal,
/// zero-padded to six digits, then `.etle`.
pub open spec fn debug_chunk_file_name(index: u32) -> Seq<char> {
    zero_padded(index as nat, 6) + "."@ + DEBUG_CHUNK_EXTENSION@
}

proof fn lemma_debug_chunk_file_name_plain(index: u32)
    ensures
        plain_name(debug_chunk_file_name(index)),
{
    reveal_strlit(".");
    reveal_strlit("etle");
    let digits = crate::bytes::decimal(index as nat);
    lemma_decimal_plain(index as nat);
    let name = debug_chunk_file_name(index);
    assert forall|i: int| 0 <= i < name.len() implies !crate::path::is_separator(#[trigger] name[i]) && name[i] != ':' by {
        if digits.len() < 6 {
            let pad = (6 - digits.len()) as nat;
            if i >= pad && i < 6 {
                assert(name[i] == digits[i - pad]);
            }
        } else if i < digits.len() {
            assert(name[i] == digits[i]);
        }
    }
}

proof fn lemma_decimal_plain(n: nat)
    ensures
        forall|i: int| 0 <= i < crate::bytes::decimal(n).len() ==> 48 <= (#[trigger] crate::bytes::decimal(n)[i]) as int <= 57,
        crate::bytes::decimal(n).len() >= 1,
    decreases n,
{
    if n >= 10 {
        lemma_decimal_plain(n / 10);
    }
}

/// The name of chunk `index` in a debug workspace.
pub fn debug_chunk_name(index: u32) -> (s: String)
    ensures
        s@ == debug_chunk_file_name(index),
{
    let mut s = zero_padded_string(index as u64, 6);
    s.append(".");
    s.append(DEBUG_CHUNK_EXTENSION);
    s
}

/// The path of the manifest in the debug workspace at `root`.
pub fn debug_manifest_path(root: &str) -> (r: String)
    ensures
        no_verbatim_prefix(root@) ==> adjoined(root@, DEBUG_MANIFEST_FILE_NAME@, r@),
{
    proof {
        reveal_strlit("manifest.bin");
        crate::path::lemma_plain_is_relative(DEBUG_MANIFEST_FILE_NAME@);
    }
    path_join(root, DEBUG_MANIFEST_FILE_NAME)
}

/// The chunks directory of the debug workspace at `root`.
pub fn debug_chunks_dir(root: &str) -> (r: String)
    ensures
        no_verbatim_prefix(root@) ==> adjoined(root@, DEBUG_CHUNKS_DIR_NAME@, r@),
{
    proof {
        reveal_strlit("chunks");
        crate::path::lemma_plain_is_relative(DEBUG_CHUNKS_DIR_NAME@);
    }
    path_join(root, DEBUG_CHUNKS_DIR_NAME)
}

/// The path of chunk `index` in the debug workspace at `root`: the chunks
/// directory, then the chunk's file name.
pub fn debug_chunk_path(root: &str, index: u32) -> (r: String)
    ensures
        no_verbatim_prefix(root@) ==> exists|dir: Seq<char>|
            adjoined(root@, DEBUG_CHUNKS_DIR_NAME@, dir) && adjoined(dir, debug_chunk_file_name(index), r@),
{
    let dir = debug_chunks_dir(root);
    let name = debug_chunk_name(index);
    proof {
        lemma_debug_chunk_file_name_plain(index);
        crate::path::lemma_plain_is_relative(debug_chunk_file_name(index));
        if no_verbatim_prefix(root@) {
            reveal_strlit("chunks");
            assert(DEBUG_CHUNKS_DIR_NAME@[0] != '?');
            lemma_adjoined_no_prefix(root@, DEBUG_CHUNKS_DIR_NAME@, dir@);
        }
    }
    path_join(dir.as_str(), name.as_str())
}

/// The file name recorded for a file: its final path component, or `unnamed`.
pub fn file_label_or_unnamed(name: Option<String>) -> (s: String)
    ensures
        match name {
            Some(n) => s@ == n@,
            None => s@ == "unnamed"@,
        },
{
    match name {
        Some(n) => n,
        None => "unnamed".to_string(),
    }
}

/// The file name of a path, or `unnamed` when it has none (a normal file
/// name is its own).
pub fn file_name(path: &str) -> (s: String)
    ensures
        normal_name(path@) ==> s@ == path@,
        forall|rooted: bool, parts: Seq<Seq<char>>| #[trigger] written_path(rooted, parts, path@) ==>
            s@ == if parts.len() > 0 { parts.last() } else { "unnamed"@ },
        ends_in_parent(path@) ==> s@ == "unnamed"@,
{
    file_label_or_unnamed(path_file_name(path))
}

/// The name under which a reconstructed copy of a file is written.
pub fn reconstructed_name(file_name: &str) -> (s: String)
    ensures
        s@ == "reconstructed-"@ + file_name@,
{
    let mut s = "reconstructed-".to_string();
    s.append(file_name);
    s
}

/// Where a reconstructed copy of `input` goes by default: beside it, named
/// `reconstructed-` and its file name.
pub fn default_output_path(input: &str) -> (r: String)
    ensures
        normal_name(input@) ==> ends_with(r@, "reconstructed-"@ + input@),
        forall|rooted: bool, parts: Seq<Seq<char>>| #[trigger] written_path(rooted, parts, input@) && parts.len() > 0 ==>
            adjoined(path_text(rooted, parts.drop_last()), "reconstructed-"@ + parts.last(), r@),
{
    let name = file_name(input);
    let target = reconstructed_name(name.as_str());
    proof {
        reveal_strlit("reconstructed-");
        if normal_name(name@) {
            lemma_prefixed_normal(name@);
        }
        if normal_name(input@) {
            assert(name@ == input@);
        }
        assert forall|rooted: bool, parts: Seq<Seq<char>>| #[trigger] written_path(rooted, parts, input@) && parts.len() > 0
            implies normal_name(name@) by {
            assert(normal_name(parts[parts.len() - 1]));
        }
    }
    path_with_file_name(input, target.as_str())
}

/// `reconstructed-` before a normal name gives a normal name.
proof fn lemma_prefixed_normal(name: Seq<char>)
    requires
        normal_name(name),
    ensures
        normal_name("reconstructed-"@ + name),
{
    reveal_strlit("reconstructed-");
    let t = "reconstructed-"@ + name;
    assert forall|i: int| 0 <= i < t.len() implies !is_separator(#[trigger] t[i]) && t[i] != ':' by {
        if i >= 14 {
            assert(t[i] == name[i - 14]);
        }
    }
    assert(t.len() > 2);
}

/// The chunks of a debug workspace, keyed by index: each manifest entry in
/// order puts its data under its index, a later entry replacing an earlier.
pub open spec fn chunk_map(metas: Seq<ChunkMeta>, datas: Seq<Seq<u8>>) -> Map<u32, Seq<u8>>
    decreases metas.len(),
{
    if metas.len() == 0 || datas.len() == 0 {
        Map::empty()
    } else {
        chunk_map(metas.drop_last(), datas.drop_last()).insert(metas.last().index, datas.last())
    }
}

/// The encrypted chunks that the manifest lists, in manifest order, to be
/// written to a debug workspace; fails with `MissingChunk` at the first entry
/// whose chunk is absent.
pub fn chunks_in_manifest_order(encrypted: &EncryptedFile) -> (r: Result<Vec<EncryptedChunk>, FileError>)
    ensures
        match r {
            Ok(out) => {
                &&& out@.len() == encrypted.manifest.chunks@.len()
                &&& forall|i: int| 0 <= i < out@.len() ==> {
                    let index = #[trigger] encrypted.manifest.chunks@[i].index;
                    &&& encrypted.chunks@.contains_key(index)
                    &&& out@[i].index == encrypted.chunks@[index].index
                    &&& out@[i].data@ == encrypted.chunks@[index].data@
                }
            },
            Err(e) => exists|i: int| 0 <= i < encrypted.manifest.chunks@.len() && {
                &&& !encrypted.chunks@.contains_key(#[trigger] encrypted.manifest.chunks@[i].index)
                &&& forall|j: int| 0 <= j < i ==> encrypted.chunks@.contains_key(#[trigger] encrypted.manifest.chunks@[j].index)
                &&& e == FileError::MissingChunk(encrypted.manifest.chunks@[i].index)
            },
        },
{
    let metas = &encrypted.manifest.chunks;
    let mut out: Vec<EncryptedChunk> = Vec::new();
    let mut i: usize = 0;
    while i < metas.len()
        invariant
            metas@ == encrypted.manifest.chunks@,
            i <= metas@.len(),
            out@.len() == i,
            forall|j: int| 0 <= j < i ==> {
                let index = #[trigger] metas@[j].index;
                &&& encrypted.chunks@.contains_key(index)
                &&& out@[j].index == encrypted.chunks@[index].index
                &&& out@[j].data@ == encrypted.chunks@[index].data@
            },
        decreases metas@.len() - i,
    {
        let index = metas[i].index;
        match encrypted.chunks.get(&index) {
            Some(chunk) => {
                let data = chunk.data.clone();
                assert(data@ =~= chunk.data@);
                out.push(EncryptedChunk { index: chunk.index, data });
            },
            None => {
                return Err(FileError::MissingChunk(index));
            },
        }
        i = i + 1;
    }
    Ok(out)
}

/// Checks a chunk read back from a debug workspace against its manifest
/// entry: its length must be the recorded encrypted size.
pub fn check_chunk_size(meta: &ChunkMeta, data: &[u8]) -> (r: Result<(), FileError>)
    ensures
        r is Ok <==> data@.len() == meta.encrypted_size,
        r matches Err(e) ==> e == (FileError::ChunkSizeMismatch { index: meta.index, expected: meta.encrypted_size, actual: data@.len() as u64 }),
{
    let actual = data.len() as u64;
    if actual != meta.encrypted_size {
        return Err(FileError::ChunkSizeMismatch { index: meta.index, expected: meta.encrypted_size, actual });
    }
    Ok(())
}

/// Builds an encrypted file from a manifest and the chunk data read for each
/// of its entries, in order; fails with `ChunkSizeMismatch` at the first chunk
/// whose length is not its recorded encrypted size.
pub fn assemble_encrypted_file(manifest: Manifest, chunk_data: Vec<Vec<u8>>) -> (r: Result<EncryptedFile, FileError>)
    requires
        chunk_data@.len() == manifest.chunks@.len(),
    ensures
        match r {
            Ok(f) => {
                let datas = chunk_data@.map_values(|d: Vec<u8>| d@);
                let expected = chunk_map(manifest.chunks@, datas);
                &&& f.manifest == manifest
                &&& forall|i: int| 0 <= i < chunk_data@.len() ==> (#[trigger] chunk_data@[i])@.len() == manifest.chunks@[i].encrypted_size
                &&& f.chunks@.dom() == expected.dom()
                &&& forall|k: u32| #[trigger] f.chunks@.contains_key(k) ==> f.chunks@[k].index == k && f.chunks@[k].data@ == expected[k]
            },
            Err(e) => exists|i: int| 0 <= i < chunk_data@.len() && {
                let meta = manifest.chunks@[i];
                &&& (#[trigger] chunk_data@[i])@.len() != meta.encrypted_size
                &&& forall|j: int| 0 <= j < i ==> (#[trigger] chunk_data@[j])@.len() == manifest.chunks@[j].encrypted_size
                &&& e == (FileError::ChunkSizeMismatch { index: meta.index, expected: meta.encrypted_size, actual: chunk_data@[i]@.len() as u64 })
            },
        },
{
    let ghost datas = chunk_data@.map_values(|d: Vec<u8>| d@);
    let ghost all = chunk_data@;
    let mut chunks: BTreeMap<u32, EncryptedChunk> = BTreeMap::new();
    let mut i: usize = 0;
    while i < manifest.chunks.len()
        invariant
            all == chunk_data@,
            all.len() == manifest.chunks@.len(),
            datas == all.map_values(|d: Vec<u8>| d@),
            i <= all.len(),
            forall|j: int| 0 <= j < i ==> (#[trigger] all[j])@.len() == manifest.chunks@[j].encrypted_size,
            chunks@.dom() == chunk_map(manifest.chunks@.take(i as int), datas.take(i as int)).dom(),
            forall|k: u32| #[trigger] chunks@.contains_key(k) ==> chunks@[k].index == k && chunks@[k].data@ == chunk_map(manifest.chunks@.take(i as int), datas.take(i as int))[k],
        decreases all.len() - i,
    {
        let data = chunk_data[i].clone();
        assert(data@ =~= all[i as int]@);
        let meta = &manifest.chunks[i];
        match check_chunk_size(meta, data.as_slice()) {
            Ok(()) => {},
            Err(e) => {
                return Err(e);
            },
        }
        proof {
            assert(manifest.chunks@.take(i + 1).drop_last() =~= manifest.chunks@.take(i as int));
            assert(datas.take(i + 1).drop_last() =~= datas.take(i as int));
            assert(datas.take(i + 1).last() == data@);
        }
        chunks.insert(meta.index, EncryptedChunk { index: meta.index, data });
        i = i + 1;
    }
    proof {
        assert(manifest.chunks@.take(i as int) =~= manifest.chunks@);
        assert(datas.take(i as int) =~= datas);
    }
    Ok(EncryptedFile { manifest, chunks })
}

} // verus!
