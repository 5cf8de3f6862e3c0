use etle::gui::board::progress_transfer;
use etle::gui::progress::TaskProgressSnapshot;
use etle::crypto::aead::Nonce;
use etle::crypto::hash::ChunkHash;
use etle::file::error::FileError;
use etle::file::manifest::ChunkMeta;
use etle::file::storage::check_chunk_size;
use etle::file::descriptor::ShareId;
use etle::crypto::aead::{decrypt_chunk, SymmetricKey};
use etle::crypto::hash::FileId;
use etle::crypto::key_wrap::{build_file_key_aad, wrap_file_key};
use etle::file::storage::{debug_chunk_path, default_output_path, file_name};
use etle::gui::format::{compact_log_line, file_label, trim_path_label};
use etle::ipc::commands::safe_output_file_name;
use etle::ipc::path::default_ipc_socket_path;

#[test]
fn labels_take_the_final_component() {
    assert_eq!(file_label("/a/b.txt"), "b.txt");
    assert_eq!(file_label("/"), "/");
    assert_eq!(file_label("x/.."), "x/..");
    assert_eq!(trim_path_label("dir/sub/name.bin"), "name.bin");
}

#[test]
fn recorded_file_names() {
    assert_eq!(file_name("/tmp/in/data.bin"), "data.bin");
    assert_eq!(file_name("/"), "unnamed");
    assert_eq!(file_name("a/.."), "unnamed");
    assert_eq!(safe_output_file_name("../../etc/passwd"), "passwd");
    assert_eq!(safe_output_file_name(".."), "downloaded-file");
}

#[test]
fn output_goes_beside_the_input() {
    assert_eq!(default_output_path("/tmp/in/data.bin"), "/tmp/in/reconstructed-data.bin");
    assert_eq!(default_output_path("data.bin"), "reconstructed-data.bin");
}

#[test]
fn joined_paths_have_separators() {
    assert_eq!(debug_chunk_path("/w", 7), "/w/chunks/000007.etle");
    assert_eq!(debug_chunk_path("/w/", 7), "/w/chunks/000007.etle");
    assert_eq!(default_ipc_socket_path("/lib"), "/lib/.etle/etled.sock");
}

#[test]
fn compacting_a_log_line_twice_changes_nothing() {
    let once = compact_log_line("  a\n\tb  c ");
    assert_eq!(once, "a b c");
    assert_eq!(compact_log_line(&once), once);
}

#[test]
fn wrapped_key_is_the_sealed_key() {
    let session = SymmetricKey([7_u8; 32]);
    let file_key = SymmetricKey([9_u8; 32]);
    let file_id = FileId([3_u8; 32]);
    let wrapped = wrap_file_key(&session, file_id, &file_key).unwrap();
    assert_eq!(wrapped.data.len(), 48);
    let aad = build_file_key_aad(file_id);
    assert_eq!(decrypt_chunk(&session, wrapped.nonce, &wrapped.data, &aad).unwrap(), file_key.as_bytes().to_vec());
}

#[test]
fn labels_ignore_repeated_separators_and_dots() {
    assert_eq!(file_label("a//b"), "b");
    assert_eq!(file_label("a/./b"), "b");
    assert_eq!(file_label("a/"), "a");
    assert_eq!(file_label(""), "");
}

#[test]
fn socket_path_under_a_root_with_a_question_mark() {
    assert_eq!(default_ipc_socket_path("/lib?x"), "/lib?x/.etle/etled.sock");
}

#[test]
fn seeding_progress_is_labelled_by_the_file_name() {
    let progress = TaskProgressSnapshot {
        job_id: None,
        task: "seed encrypting".to_string(),
        label: "/data/in/movie.mkv".to_string(),
        completed_chunks: 1,
        total_chunks: 4,
        bytes_done: 10,
        total_bytes: 40,
        bytes_per_second: 5,
    };
    let card = progress_transfer(&progress, &[], 3);
    assert_eq!(card.label, "movie.mkv");
    assert_eq!(card.id, "seed:movie.mkv");
}

#[test]
fn debug_chunks_are_checked_one_by_one() {
    let meta = ChunkMeta { index: 2, plain_size: 3, encrypted_size: 19, nonce: Nonce([0_u8; 24]), blake3_hash: ChunkHash([0_u8; 32]) };
    assert!(check_chunk_size(&meta, &[0_u8; 19]).is_ok());
    assert!(matches!(
        check_chunk_size(&meta, &[0_u8; 18]),
        Err(FileError::ChunkSizeMismatch { index: 2, expected: 19, actual: 18 })
    ));
}

#[test]
fn share_id_text_must_be_hex_digits() {
    let upper = "AB".repeat(32);
    assert!(upper.parse::<ShareId>().is_ok());
    let mut bad = "ab".repeat(32);
    bad.replace_range(10..11, "g");
    assert!(bad.parse::<ShareId>().is_err());
    assert!("ab".repeat(31).parse::<ShareId>().is_err());
}
