use etle::crypto::aead::SymmetricKey;
use etle::crypto::hash::hash_bytes;
use etle::file::chunker::{join_chunks, split_into_chunks, PlainChunk};
use etle::file::error::FileError;
use etle::file::manifest::Manifest;
use etle::file::storage::{
    assemble_encrypted_file, chunks_in_manifest_order, debug_chunk_name, debug_chunk_path, debug_chunks_dir,
    debug_manifest_path, decrypt_to_bytes, default_output_path, encrypt_bytes, file_name, reconstructed_name,
};

#[test]
fn encrypt_decrypt_reconstructs_same_bytes() {
    let key = SymmetricKey([5_u8; 32]);
    let encrypted = encrypt_bytes("roundtrip-input.bin".to_string(), b"chunk me, encrypt me, restore me", &key, 8).unwrap();
    let output = decrypt_to_bytes(&encrypted, &key).unwrap();

    assert_eq!(output, b"chunk me, encrypt me, restore me");
}

#[test]
fn tampered_encrypted_chunk_is_rejected() {
    let key = SymmetricKey([5_u8; 32]);
    let mut encrypted = encrypt_bytes("tamper-input.bin".to_string(), b"tamper check", &key, 8).unwrap();
    encrypted.chunks.get_mut(&0).unwrap().data[0] ^= 0xff;

    assert!(matches!(decrypt_to_bytes(&encrypted, &key), Err(FileError::ChunkHashMismatch(0))));
}

#[test]
fn manifest_records_file_and_chunks() {
    let key = SymmetricKey([5_u8; 32]);
    let data = b"0123456789abcdefXYZ";
    let encrypted = encrypt_bytes("data.bin".to_string(), data, &key, 8).unwrap();
    let manifest = &encrypted.manifest;

    assert_eq!(manifest.file_name, "data.bin");
    assert_eq!(manifest.file_size, 19);
    assert_eq!(manifest.chunk_size, 8);
    assert_eq!(manifest.file_id.0, hash_bytes(data));
    assert_eq!(manifest.chunks.len(), 3);
    let sizes: Vec<u64> = manifest.chunks.iter().map(|c| c.plain_size).collect();
    assert_eq!(sizes, vec![8, 8, 3]);
    for (i, meta) in manifest.chunks.iter().enumerate() {
        assert_eq!(meta.index, i as u32);
        assert_eq!(meta.encrypted_size, meta.plain_size + 16);
        let chunk = &encrypted.chunks[&meta.index];
        assert_eq!(meta.blake3_hash.0, hash_bytes(&chunk.data));
    }
}

#[test]
fn encrypt_refuses_zero_chunk_size() {
    let key = SymmetricKey([5_u8; 32]);

    assert!(matches!(encrypt_bytes("x".to_string(), b"abc", &key, 0), Err(FileError::InvalidChunkSize(0))));
}

#[test]
fn decrypt_with_wrong_key_fails() {
    let encrypted = encrypt_bytes("x".to_string(), b"secret bytes", &SymmetricKey([5_u8; 32]), 4).unwrap();

    assert!(matches!(decrypt_to_bytes(&encrypted, &SymmetricKey([6_u8; 32])), Err(FileError::Crypto(_))));
}

#[test]
fn decrypt_reports_missing_chunk() {
    let key = SymmetricKey([5_u8; 32]);
    let mut encrypted = encrypt_bytes("x".to_string(), b"secret bytes", &key, 4).unwrap();
    encrypted.chunks.remove(&1);

    assert!(matches!(decrypt_to_bytes(&encrypted, &key), Err(FileError::MissingChunk(1))));
    assert!(matches!(chunks_in_manifest_order(&encrypted), Err(FileError::MissingChunk(1))));
}

#[test]
fn decrypt_reports_final_hash_mismatch() {
    let key = SymmetricKey([5_u8; 32]);
    let mut encrypted = encrypt_bytes("x".to_string(), b"secret bytes", &key, 4).unwrap();
    encrypted.manifest.file_id.0[0] ^= 1;

    assert!(decrypt_to_bytes(&encrypted, &key).is_err());
}

#[test]
fn empty_file_roundtrips() {
    let key = SymmetricKey([5_u8; 32]);
    let encrypted = encrypt_bytes("empty".to_string(), b"", &key, 4).unwrap();

    assert_eq!(encrypted.manifest.chunks.len(), 0);
    assert_eq!(decrypt_to_bytes(&encrypted, &key).unwrap(), b"");
}

#[test]
fn debug_workspace_reassembles_and_checks_sizes() {
    let key = SymmetricKey([5_u8; 32]);
    let encrypted = encrypt_bytes("x".to_string(), b"secret bytes", &key, 4).unwrap();
    let ordered = chunks_in_manifest_order(&encrypted).unwrap();
    let datas: Vec<Vec<u8>> = ordered.iter().map(|c| c.data.clone()).collect();
    let manifest: Manifest = encrypted.manifest.clone();

    let rebuilt = assemble_encrypted_file(manifest.clone(), datas.clone()).unwrap();
    assert_eq!(decrypt_to_bytes(&rebuilt, &key).unwrap(), b"secret bytes");

    let mut short = datas;
    short[2].pop();
    match assemble_encrypted_file(manifest, short) {
        Err(FileError::ChunkSizeMismatch { index, expected, actual }) => {
            assert_eq!(index, 2);
            assert_eq!(expected, 20);
            assert_eq!(actual, 19);
        }
        other => panic!("unexpected {other:?}"),
    }
}

#[test]
fn debug_paths() {
    assert_eq!(debug_chunk_name(7), "000007.etle");
    assert_eq!(debug_chunk_name(1234567), "1234567.etle");
    assert_eq!(debug_manifest_path("/tmp/ws"), "/tmp/ws/manifest.bin");
    assert_eq!(debug_chunks_dir("/tmp/ws"), "/tmp/ws/chunks");
    assert_eq!(debug_chunk_path("/tmp/ws", 42), "/tmp/ws/chunks/000042.etle");
}

#[test]
fn output_path_sits_beside_input() {
    assert_eq!(reconstructed_name("a.bin"), "reconstructed-a.bin");
    assert_eq!(file_name("/data/a.bin"), "a.bin");
    assert_eq!(file_name("/"), "unnamed");
    assert_eq!(default_output_path("/data/a.bin"), "/data/reconstructed-a.bin");
}

#[test]
fn chunks_file_with_smaller_last_chunk() {
    let chunks = split_into_chunks(b"abcdefghi", 4).unwrap();

    assert_eq!(chunks.len(), 3);
    assert_eq!(chunks[0].data, b"abcd");
    assert_eq!(chunks[1].data, b"efgh");
    assert_eq!(chunks[2].data, b"i");
}

#[test]
fn rejects_zero_chunk_size() {
    assert!(split_into_chunks(b"abc", 0).is_err());
}

#[test]
fn join_orders_chunks_by_index() {
    let chunks = vec![
        PlainChunk { index: 2, data: b"ef".to_vec() },
        PlainChunk { index: 0, data: b"ab".to_vec() },
        PlainChunk { index: 1, data: b"cd".to_vec() },
    ];

    assert_eq!(join_chunks(&chunks), b"abcdef");
    let split = split_into_chunks(b"abcdef", 4).unwrap();
    assert_eq!(join_chunks(&split), b"abcdef");
}

#[test]
fn joined_chunks_keep_every_byte() {
    let chunks = vec![
        PlainChunk { index: 1, data: b"cd".to_vec() },
        PlainChunk { index: 0, data: b"ab".to_vec() },
        PlainChunk { index: 1, data: b"e".to_vec() },
    ];
    let joined = join_chunks(&chunks);
    assert_eq!(joined, b"abcde");
    assert_eq!(joined.len(), 5);
}
