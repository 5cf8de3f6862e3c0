//! X25519 key agreement, session and file key derivation, and PSK
//! authentication of the key-agreement transcript.

use vstd::prelude::*;
use vstd::utf8::encode_utf8;

use crate::bytes::{bytes_equal, extend_bytes};
use crate::crypto::{aead::SymmetricKey, error::CryptoError, hash::FileId};

verus! {

/// An X25519 public key.
#[derive(Clone, Copy, Debug)]
pub struct PublicKeyBytes(pub [u8; 32]);

/// The raw X25519 shared secret.
#[derive(Clone, Copy)]
pub struct SharedSecretBytes(pub [u8; 32]);

/// A pre-shared key that authenticates the key agreement.
pub struct AuthPsk([u8; 32]);

impl Clone for AuthPsk {
    fn clone(&self) -> (r: Self)
        ensures
            r == *self,
    {
        AuthPsk(self.0)
    }
}

/// Which side of the key agreement computes an authentication tag.
#[derive(Clone, Copy, Debug, PartialEq, Eq, Structural)]
pub enum AuthRole {
    Client,
    Server,
}

/// A transcript authentication tag.
pub type AuthTag = [u8; 32];

impl PartialEq for PublicKeyBytes {
    fn eq(&self, other: &Self) -> (r: bool) {
        bytes_equal(&self.0, &other.0)
    }
}

impl Eq for PublicKeyBytes {}

impl vstd::std_specs::cmp::PartialEqSpecImpl for PublicKeyBytes {
    open spec fn obeys_eq_spec() -> bool {
        true
    }

    open spec fn eq_spec(&self, other: &Self) -> bool {
        self.0@ == other.0@
    }
}

impl PartialEq for SharedSecretBytes {
    fn eq(&self, other: &Self) -> (r: bool) {
        bytes_equal(&self.0, &other.0)
    }
}

impl Eq for SharedSecretBytes {}

impl vstd::std_specs::cmp::PartialEqSpecImpl for SharedSecretBytes {
    open spec fn obeys_eq_spec() -> bool {
        true
    }

    open spec fn eq_spec(&self, other: &Self) -> bool {
        self.0@ == other.0@
    }
}

impl PartialEq for AuthPsk {
    fn eq(&self, other: &Self) -> (r: bool) {
        bytes_equal(&self.0, &other.0)
    }
}

impl Eq for AuthPsk {}

impl vstd::std_specs::cmp::PartialEqSpecImpl for AuthPsk {
    open spec fn obeys_eq_spec() -> bool {
        true
    }

    open spec fn eq_spec(&self, other: &Self) -> bool {
        self.spec_bytes() == other.spec_bytes()
    }
}

/// The key that BLAKE3 derives (`blake3::derive_key`) from a context string
/// and key material.
pub uninterp spec fn blake3_derived_key(context: Seq<char>, material: Seq<u8>) -> Seq<u8>;

/// The keyed BLAKE3 hash (`blake3::keyed_hash`) of an input under a 32-byte key.
pub uninterp spec fn blake3_keyed_digest(key: Seq<u8>, input: Seq<u8>) -> Seq<u8>;

/// Calls `blake3::derive_key`; its output is named `blake3_derived_key` of the
/// arguments.
#[verifier::external_body]
fn blake3_derive_key(context: &str, material: &[u8]) -> (r: [u8; 32])
    ensures
        r@ == blake3_derived_key(context@, material@),
{
    blake3::derive_key(context, material)
}

/// Calls `blake3::keyed_hash`; its output is named `blake3_keyed_digest` of the
/// arguments. (The crate documents it equal to `Hasher::new_keyed` updated
/// with the same bytes.)
#[verifier::external_body]
fn blake3_keyed_hash(key: &[u8; 32], input: &[u8]) -> (r: [u8; 32])
    ensures
        r@ == blake3_keyed_digest(key@, input@),
{
    *blake3::keyed_hash(key, input).as_bytes()
}

impl AuthPsk {
    /// A PSK given by its bytes.
    pub fn from_bytes(bytes: [u8; 32]) -> (r: Self)
        ensures
            r.spec_bytes() == bytes@,
    {
        AuthPsk(bytes)
    }

    /// A PSK derived from a passphrase, given as bytes (a text passphrase as
    /// its UTF-8 bytes).
    pub fn from_passphrase(passphrase: &[u8]) -> (r: Self)
        ensures
            r.spec_bytes() == blake3_derived_key("etle v1 psk authentication passphrase"@, passphrase@),
    {
        AuthPsk(blake3_derive_key("etle v1 psk authentication passphrase", passphrase))
    }

    /// The 32 PSK bytes.
    pub fn as_bytes(&self) -> (r: &[u8; 32])
        ensures
            r@ == self.spec_bytes(),
    {
        &self.0
    }

    /// The PSK bytes, in specifications.
    pub closed spec fn spec_bytes(&self) -> Seq<u8> {
        self.0@
    }
}

/// The random X25519 secret of `x25519_dalek`.
#[verifier::external_type_specification]
#[verifier::external_body]
pub struct ExEphemeralSecret(x25519_dalek::EphemeralSecret);

/// The X25519 public key of a secret, as `PublicKey::from(&secret)` computes
/// it (the base point times the clamped secret), as bytes.
pub uninterp spec fn x25519_public(secret: x25519_dalek::EphemeralSecret) -> Seq<u8>;

/// The X25519 shared secret of a secret and a peer's public key bytes, as
/// `EphemeralSecret::diffie_hellman` computes it (the peer's point times the
/// clamped secret), as bytes.
pub uninterp spec fn x25519_shared(secret: x25519_dalek::EphemeralSecret, peer_public: Seq<u8>) -> Seq<u8>;

/// Calls `EphemeralSecret::random_from_rng(OsRng)`: a fresh random secret.
#[verifier::external_body]
fn x25519_random_secret() -> (r: x25519_dalek::EphemeralSecret) {
    x25519_dalek::EphemeralSecret::random_from_rng(rand_core::OsRng)
}

/// Calls `PublicKey::from(&secret)` and returns its bytes; the contract names
/// them `x25519_public` of the secret, a function of the secret alone.
#[verifier::external_body]
fn x25519_public_key(secret: &x25519_dalek::EphemeralSecret) -> (r: [u8; 32])
    ensures
        r@ == x25519_public(*secret),
{
    x25519_dalek::PublicKey::from(secret).to_bytes()
}

/// Calls `EphemeralSecret::diffie_hellman` with the peer's public key and
/// returns the shared secret's bytes. The contract names them `x25519_shared`
/// of the secret and the peer's key bytes, a function of those alone, and
/// claims the agreement that X25519 is for (the crate's documentation shows
/// both parties computing the same secret): when the peer's key is the public
/// key of another secret, the result is what that secret computes with this
/// secret's public key (both are the base point times the two clamped
/// secrets).
#[verifier::external_body]
fn x25519_agree(secret: x25519_dalek::EphemeralSecret, peer_public_key: &[u8; 32]) -> (r: [u8; 32])
    ensures
        r@ == x25519_shared(secret, peer_public_key@),
        forall|other: x25519_dalek::EphemeralSecret| #[trigger] x25519_public(other) == peer_public_key@
            ==> r@ == x25519_shared(other, x25519_public(secret)),
{
    secret.diffie_hellman(&x25519_dalek::PublicKey::from(*peer_public_key)).to_bytes()
}

/// An ephemeral X25519 key pair.
pub struct EphemeralKeypair {
    secret: x25519_dalek::EphemeralSecret,
    public: PublicKeyBytes,
}

/// Whether all bytes are zero.
pub open spec fn all_zero(bytes: Seq<u8>) -> bool {
    forall|i: int| 0 <= i < bytes.len() ==> bytes[i] == 0
}

/// Accepts a raw Diffie-Hellman output as a shared secret unless it is all
/// zero (a low-order peer key).
pub fn check_shared_secret(shared: [u8; 32]) -> (r: Result<SharedSecretBytes, CryptoError>)
    ensures
        all_zero(shared@) ==> (r matches Err(e) && e == CryptoError::InvalidPublicKey),
        !all_zero(shared@) ==> (r matches Ok(s) && s.0@ == shared@),
{
    let mut i: usize = 0;
    while i < 32
        invariant
            i <= 32,
            forall|j: int| 0 <= j < i ==> shared@[j] == 0,
        decreases 32 - i,
    {
        if shared[i] != 0 {
            return Ok(SharedSecretBytes(shared));
        }
        i = i + 1;
    }
    Err(CryptoError::InvalidPublicKey)
}

impl EphemeralKeypair {
    /// The public half is the public key of the secret half.
    #[verifier::type_invariant]
    pub closed spec fn is_pair(&self) -> bool {
        self.public.0@ == x25519_public(self.secret)
    }

    /// The X25519 shared secret of this pair's secret and a peer's public key.
    pub closed spec fn shared_with(&self, peer_public: Seq<u8>) -> Seq<u8> {
        x25519_shared(self.secret, peer_public)
    }

    /// A fresh random key pair.
    pub fn generate() -> (r: Self)
        ensures
            r.is_pair(),
    {
        let secret = x25519_random_secret();
        let public = PublicKeyBytes(x25519_public_key(&secret));
        EphemeralKeypair { secret, public }
    }

    /// The public half.
    pub fn public_key(&self) -> (r: PublicKeyBytes)
        ensures
            r == self.spec_public(),
    {
        self.public
    }

    /// The public half, in specifications.
    pub closed spec fn spec_public(&self) -> PublicKeyBytes {
        self.public
    }

    /// Agrees on a shared secret with a peer; an all-zero result (a low-order
    /// peer key) is refused.
    ///
    /// Two pairs agree: what one computes with the other's public key is what
    /// the other computes with the first one's.
    pub fn diffie_hellman(self, peer_public_key: PublicKeyBytes) -> (r: Result<SharedSecretBytes, CryptoError>)
        ensures
            r is Ok <==> !all_zero(self.shared_with(peer_public_key.0@)),
            r matches Ok(s) ==> s.0@ == self.shared_with(peer_public_key.0@),
            r matches Err(e) ==> e == CryptoError::InvalidPublicKey,
            forall|other: EphemeralKeypair| #[trigger] other.is_pair() && other.spec_public() == peer_public_key
                ==> self.shared_with(peer_public_key.0@) == other.shared_with(self.spec_public().0@),
    {
        proof {
            use_type_invariant(&self);
        }
        let ghost me = self;
        let shared = x25519_agree(self.secret, &peer_public_key.0);
        proof {
            assert forall|other: EphemeralKeypair| #[trigger] other.is_pair() && other.spec_public() == peer_public_key
                implies me.shared_with(peer_public_key.0@) == other.shared_with(me.spec_public().0@) by {
                assert(x25519_public(other.secret) == peer_public_key.0@);
            }
        }
        check_shared_secret(shared)
    }
}

/// The session key of a shared secret.
pub fn derive_session_key(shared_secret: SharedSecretBytes) -> (r: SymmetricKey)
    ensures
        r.0@ == blake3_derived_key("etle v1 x25519 session key"@, shared_secret.0@),
{
    SymmetricKey(blake3_derive_key("etle v1 x25519 session key", &shared_secret.0))
}

/// The key material of a transcript-bound session key: the shared secret,
/// then the client's and the server's public keys.
pub open spec fn transcript_material(shared: Seq<u8>, client: Seq<u8>, server: Seq<u8>) -> Seq<u8> {
    shared + client + server
}

/// Derives a session key that is bound to the X25519 transcript.
///
/// This prevents swapped-role or public-key-order confusion. It still needs an
/// out-of-band authenticator, such as [`AuthPsk`], to stop active MITM attacks.
pub fn derive_session_key_with_transcript(
    shared_secret: SharedSecretBytes,
    client_public_key: PublicKeyBytes,
    server_public_key: PublicKeyBytes,
) -> (r: SymmetricKey)
    ensures
        r.0@ == blake3_derived_key(
            "etle v1 x25519 transcript-bound session key"@,
            transcript_material(shared_secret.0@, client_public_key.0@, server_public_key.0@),
        ),
{
    let mut material: Vec<u8> = Vec::new();
    extend_bytes(&mut material, &shared_secret.0);
    extend_bytes(&mut material, &client_public_key.0);
    extend_bytes(&mut material, &server_public_key.0);
    SymmetricKey(blake3_derive_key("etle v1 x25519 transcript-bound session key", material.as_slice()))
}

/// The label of a role in the authenticated transcript.
pub open spec fn role_label(role: AuthRole) -> Seq<u8> {
    match role {
        AuthRole::Client => encode_utf8("client"@),
        AuthRole::Server => encode_utf8("server"@),
    }
}

/// The input of the PSK authentication tag: a domain label, the role, the
/// session key and both public keys.
pub open spec fn auth_transcript(session_key: Seq<u8>, client: Seq<u8>, server: Seq<u8>, role: AuthRole) -> Seq<u8> {
    encode_utf8("etle v1 psk-authenticated x25519 transcript"@) + role_label(role) + session_key + client + server
}

/// Computes a PSK proof for the X25519 transcript and derived session key.
///
/// The proof authenticates both the out-of-band PSK and key confirmation for the
/// ephemeral DH result. A MITM can relay a same-transcript proof, but then it
/// does not know the session key; if it changes either public key, the proof no
/// longer verifies without the PSK.
pub fn derive_auth_tag(
    psk: &AuthPsk,
    session_key: &SymmetricKey,
    client_public_key: PublicKeyBytes,
    server_public_key: PublicKeyBytes,
    role: AuthRole,
) -> (r: AuthTag)
    ensures
        r@ == blake3_keyed_digest(
            psk.spec_bytes(),
            auth_transcript(session_key.0@, client_public_key.0@, server_public_key.0@, role),
        ),
{
    let mut input: Vec<u8> = Vec::new();
    extend_bytes(&mut input, "etle v1 psk-authenticated x25519 transcript".as_bytes());
    match role {
        AuthRole::Client => extend_bytes(&mut input, "client".as_bytes()),
        AuthRole::Server => extend_bytes(&mut input, "server".as_bytes()),
    }
    extend_bytes(&mut input, session_key.as_bytes());
    extend_bytes(&mut input, &client_public_key.0);
    extend_bytes(&mut input, &server_public_key.0);
    blake3_keyed_hash(psk.as_bytes(), input.as_slice())
}

/// Compares two tags without an early exit.
pub fn auth_tags_equal(left: &AuthTag, right: &AuthTag) -> (r: bool)
    ensures
        r == (left@ == right@),
{
    let mut diff: u8 = 0;
    let mut i: usize = 0;
    while i < 32
        invariant
            i <= 32,
            (diff == 0) == (forall|j: int| 0 <= j < i ==> left@[j] == right@[j]),
        decreases 32 - i,
    {
        let a = left[i];
        let b = right[i];
        assert((diff | (a ^ b)) == 0 <==> (diff == 0 && a == b)) by (bit_vector);
        diff = diff | (a ^ b);
        i = i + 1;
    }
    proof {
        if diff == 0 {
            assert(left@ =~= right@);
        }
    }
    diff == 0
}

/// The key material of a file key: the shared secret, then the file id.
pub open spec fn file_key_material(shared: Seq<u8>, file_id: Seq<u8>) -> Seq<u8> {
    shared + file_id
}

/// The key of one file, derived from the shared secret and the file id.
pub fn derive_file_key(shared_secret: SharedSecretBytes, file_id: FileId) -> (r: SymmetricKey)
    ensures
        r.0@ == blake3_derived_key("etle v1 x25519 file key"@, file_key_material(shared_secret.0@, file_id.0@)),
{
    let mut material: Vec<u8> = Vec::new();
    extend_bytes(&mut material, &shared_secret.0);
    extend_bytes(&mut material, file_id.as_bytes());
    SymmetricKey(blake3_derive_key("etle v1 x25519 file key", material.as_slice()))
}

} // verus!
