use etle::crypto::aead::{build_chunk_aad, decrypt_chunk, encrypt_chunk, generate_nonce, SymmetricKey};
use etle::crypto::error::CryptoError;
use etle::crypto::hash::{hash_bytes, hash_chunk, hash_file_id, FileId};
use etle::crypto::key_exchange::{
    auth_tags_equal, derive_auth_tag, derive_file_key, derive_session_key, derive_session_key_with_transcript, AuthPsk,
    AuthRole, EphemeralKeypair, PublicKeyBytes, SharedSecretBytes,
};
use etle::crypto::key_wrap::{generate_file_key, unwrap_file_key, wrap_file_key};

fn test_key() -> SymmetricKey {
    SymmetricKey([7_u8; 32])
}

fn test_file_id() -> FileId {
    FileId([9_u8; 32])
}

fn test_session_key() -> SymmetricKey {
    SymmetricKey([3_u8; 32])
}

fn wrap_file_id() -> FileId {
    FileId([7_u8; 32])
}

#[test]
fn encrypt_then_decrypt_chunk() {
    let key = test_key();
    let nonce = generate_nonce();
    let plaintext = b"encrypted negi";
    let aad = build_chunk_aad(test_file_id(), 0, plaintext.len() as u64);

    let ciphertext = encrypt_chunk(&key, nonce, plaintext, &aad).unwrap();
    let decrypted = decrypt_chunk(&key, nonce, &ciphertext, &aad).unwrap();

    assert_eq!(decrypted, plaintext);
}

#[test]
fn tampered_ciphertext_fails() {
    let key = test_key();
    let nonce = generate_nonce();
    let plaintext = b"do not tamper";
    let aad = build_chunk_aad(test_file_id(), 0, plaintext.len() as u64);

    let mut ciphertext = encrypt_chunk(&key, nonce, plaintext, &aad).unwrap();
    ciphertext[0] ^= 0xff;

    assert!(decrypt_chunk(&key, nonce, &ciphertext, &aad).is_err());
}

#[test]
fn wrong_aad_fails() {
    let key = test_key();
    let nonce = generate_nonce();
    let plaintext = b"aad binds chunk metadata";
    let aad = build_chunk_aad(test_file_id(), 0, plaintext.len() as u64);
    let wrong_aad = build_chunk_aad(test_file_id(), 1, plaintext.len() as u64);

    let ciphertext = encrypt_chunk(&key, nonce, plaintext, &aad).unwrap();

    assert!(decrypt_chunk(&key, nonce, &ciphertext, &wrong_aad).is_err());
}

#[test]
fn wrong_nonce_fails() {
    let key = test_key();
    let nonce = generate_nonce();
    let wrong_nonce = generate_nonce();
    let plaintext = b"nonce must be unique and correct";
    let aad = build_chunk_aad(test_file_id(), 0, plaintext.len() as u64);

    let ciphertext = encrypt_chunk(&key, nonce, plaintext, &aad).unwrap();

    assert!(decrypt_chunk(&key, wrong_nonce, &ciphertext, &aad).is_err());
}

#[test]
fn ciphertext_is_plaintext_plus_tag() {
    let nonce = generate_nonce();
    let aad = build_chunk_aad(test_file_id(), 2, 5);
    let ciphertext = encrypt_chunk(&test_key(), nonce, b"hello", &aad).unwrap();

    assert_eq!(ciphertext.len(), 5 + 16);
    assert_ne!(&ciphertext[..5], b"hello");
}

#[test]
fn chunk_aad_layout() {
    let aad = build_chunk_aad(FileId([1_u8; 32]), 0x01020304, 0x0a0b);
    let mut expected = vec![1_u8; 32];
    expected.extend_from_slice(&[4, 3, 2, 1]);
    expected.extend_from_slice(&[0x0b, 0x0a, 0, 0, 0, 0, 0, 0]);

    assert_eq!(aad, expected);
}

#[test]
fn same_input_has_same_hash() {
    assert_eq!(hash_bytes(b"miku"), hash_bytes(b"miku"));
}

#[test]
fn different_input_has_different_hash() {
    assert_ne!(hash_bytes(b"miku"), hash_bytes(b"teto"));
}

#[test]
fn hashes_are_blake3() {
    assert_eq!(hash_bytes(b"abc"), *blake3::hash(b"abc").as_bytes());
    assert_eq!(hash_file_id(b"abc").0, *blake3::hash(b"abc").as_bytes());
    assert_eq!(hash_chunk(b"abc").0, *blake3::hash(b"abc").as_bytes());
    assert_eq!(hash_file_id(b"abc").to_string(), blake3::hash(b"abc").to_hex().to_string());
}

#[test]
fn peers_derive_same_shared_secret() {
    let alice = EphemeralKeypair::generate();
    let bob = EphemeralKeypair::generate();

    let alice_public = alice.public_key();
    let bob_public = bob.public_key();

    let alice_secret = alice.diffie_hellman(bob_public).unwrap();
    let bob_secret = bob.diffie_hellman(alice_public).unwrap();

    assert!(alice_secret == bob_secret);
}

#[test]
fn rejects_all_zero_shared_secret() {
    let alice = EphemeralKeypair::generate();
    let result = alice.diffie_hellman(PublicKeyBytes([0_u8; 32]));

    assert!(matches!(result, Err(CryptoError::InvalidPublicKey)));
}

#[test]
fn same_secret_derives_same_session_key() {
    let shared_secret = SharedSecretBytes([42_u8; 32]);

    let first = derive_session_key(shared_secret);
    let second = derive_session_key(shared_secret);

    assert_eq!(first, second);
}

#[test]
fn session_key_is_blake3_derived_key() {
    let key = derive_session_key(SharedSecretBytes([42_u8; 32]));

    assert_eq!(key.0, blake3::derive_key("etle v1 x25519 session key", &[42_u8; 32]));
}

#[test]
fn psk_auth_tag_verifies_for_same_transcript() {
    let psk = AuthPsk::from_passphrase("correct horse battery staple".as_bytes());
    let shared_secret = SharedSecretBytes([42_u8; 32]);
    let client_public = PublicKeyBytes([1_u8; 32]);
    let server_public = PublicKeyBytes([2_u8; 32]);
    let session_key = derive_session_key_with_transcript(shared_secret, client_public, server_public);

    let tag = derive_auth_tag(&psk, &session_key, client_public, server_public, AuthRole::Client);
    let expected = derive_auth_tag(&psk, &session_key, client_public, server_public, AuthRole::Client);

    assert!(auth_tags_equal(&tag, &expected));
}

#[test]
fn psk_auth_tag_changes_for_wrong_psk() {
    let good_psk = AuthPsk::from_passphrase("correct horse battery staple".as_bytes());
    let wrong_psk = AuthPsk::from_passphrase("hunter2".as_bytes());
    let shared_secret = SharedSecretBytes([42_u8; 32]);
    let client_public = PublicKeyBytes([1_u8; 32]);
    let server_public = PublicKeyBytes([2_u8; 32]);
    let session_key = derive_session_key_with_transcript(shared_secret, client_public, server_public);

    let tag = derive_auth_tag(&good_psk, &session_key, client_public, server_public, AuthRole::Client);
    let expected = derive_auth_tag(&wrong_psk, &session_key, client_public, server_public, AuthRole::Client);

    assert!(!auth_tags_equal(&tag, &expected));
}

#[test]
fn auth_tag_depends_on_role() {
    let psk = AuthPsk::from_bytes([5_u8; 32]);
    let key = SymmetricKey([6_u8; 32]);
    let client = derive_auth_tag(&psk, &key, PublicKeyBytes([1_u8; 32]), PublicKeyBytes([2_u8; 32]), AuthRole::Client);
    let server = derive_auth_tag(&psk, &key, PublicKeyBytes([1_u8; 32]), PublicKeyBytes([2_u8; 32]), AuthRole::Server);

    assert!(!auth_tags_equal(&client, &server));
    assert_eq!(psk.as_bytes(), &[5_u8; 32]);
}

#[test]
fn same_secret_and_file_id_derives_same_file_key() {
    let shared_secret = SharedSecretBytes([42_u8; 32]);
    let file_id = FileId([11_u8; 32]);

    let first = derive_file_key(shared_secret, file_id);
    let second = derive_file_key(shared_secret, file_id);

    assert_eq!(first, second);
}

#[test]
fn different_file_id_derives_different_file_key() {
    let shared_secret = SharedSecretBytes([42_u8; 32]);
    let first = derive_file_key(shared_secret, FileId([1_u8; 32]));
    let second = derive_file_key(shared_secret, FileId([2_u8; 32]));

    assert_ne!(first, second);
}

#[test]
fn generated_file_keys_are_not_constant() {
    let first = generate_file_key();
    let second = generate_file_key();

    assert_ne!(first, second);
}

#[test]
fn wrap_then_unwrap_file_key() {
    let file_key = generate_file_key();
    let wrapped = wrap_file_key(&test_session_key(), wrap_file_id(), &file_key).unwrap();
    let unwrapped = unwrap_file_key(&test_session_key(), wrap_file_id(), &wrapped).unwrap();

    assert_eq!(unwrapped, file_key);
}

#[test]
fn wrong_file_id_fails_to_unwrap() {
    let file_key = generate_file_key();
    let wrapped = wrap_file_key(&test_session_key(), wrap_file_id(), &file_key).unwrap();
    let wrong_file_id = FileId([8_u8; 32]);

    assert!(unwrap_file_key(&test_session_key(), wrong_file_id, &wrapped).is_err());
}

#[test]
fn unwrap_refuses_wrong_session_key() {
    let file_key = generate_file_key();
    let wrapped = wrap_file_key(&test_session_key(), wrap_file_id(), &file_key).unwrap();

    assert_eq!(unwrap_file_key(&SymmetricKey([0_u8; 32]), wrap_file_id(), &wrapped), Err(CryptoError::Decrypt));
}
