use etle::crypto::aead::Nonce;
use etle::crypto::hash::{ChunkHash, FileId};
use etle::file::descriptor::{CryptoSuite, EtleDescriptor, FileEntry, ShareId, ETLE_DESCRIPTOR_VERSION};
use etle::file::manifest::ChunkMeta;

fn sample_chunk(index: u32) -> ChunkMeta {
    ChunkMeta {
        index,
        plain_size: 4,
        encrypted_size: 20,
        nonce: Nonce([index as u8; 24]),
        blake3_hash: ChunkHash([index as u8; 32]),
    }
}

fn sample_descriptor(chunk: u32) -> EtleDescriptor {
    EtleDescriptor::new(
        "sample-package",
        4,
        4,
        vec![FileEntry {
            path: "sample.txt".to_string(),
            size: 4,
            offset: 0,
            blake3_hash: FileId([1_u8; 32]),
        }],
        vec![sample_chunk(chunk)],
    )
}

#[test]
fn share_id_parses_from_display_hex() {
    let share_id = ShareId([0xab_u8; 32]);
    let parsed = share_id.to_string().parse::<ShareId>().unwrap();

    assert_eq!(parsed, share_id);
    assert!("not-a-share-id".parse::<ShareId>().is_err());
}

#[test]
fn share_id_changes_when_chunk_metadata_changes() {
    let first = sample_descriptor(0);

    let second = EtleDescriptor::new("sample-package", 4, 4, first.files.clone(), vec![sample_chunk(1)]);

    assert_ne!(first.share_id, second.share_id);
}

#[test]
fn new_descriptor_verifies_its_share_id() {
    let descriptor = sample_descriptor(0);

    assert_eq!(descriptor.version, ETLE_DESCRIPTOR_VERSION);
    assert_eq!(descriptor.crypto, CryptoSuite::XChaCha20Poly1305Blake3X25519V1);
    assert!(descriptor.verify_share_id());
    assert_eq!(descriptor.recompute_share_id(), descriptor.share_id);
    assert_eq!(sample_descriptor(0).share_id, descriptor.share_id);
}

#[test]
fn tampered_descriptor_fails_share_id_check() {
    let mut descriptor = sample_descriptor(0);
    descriptor.total_size = 5;

    assert!(!descriptor.verify_share_id());
}

#[test]
fn share_id_text_is_lowercase_hex_and_parses_uppercase() {
    let share_id = ShareId([0xab_u8; 32]);
    let text = share_id.to_string();

    assert_eq!(text, "ab".repeat(32));
    assert_eq!(text.to_uppercase().parse::<ShareId>().unwrap(), share_id);
    assert!("ab".repeat(31).parse::<ShareId>().is_err());
    assert!(format!("{}zz", "ab".repeat(31)).parse::<ShareId>().is_err());
}

#[test]
fn domain_tag_names_the_suite() {
    assert_eq!(CryptoSuite::XChaCha20Poly1305Blake3X25519V1.as_domain_tag(), b"xchacha20poly1305+blake3+x25519:v1");
}

#[test]
fn file_entry_end_offset_adds_size() {
    let entry = FileEntry { path: "a".to_string(), size: 7, offset: 5, blake3_hash: FileId([0_u8; 32]) };

    assert_eq!(entry.end_offset(), 12);
}
