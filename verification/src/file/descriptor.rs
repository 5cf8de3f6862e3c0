//! Share descriptors and their content-derived share ids.

use vstd::prelude::*;
use vstd::bytes::{spec_u16_to_le_bytes, spec_u32_to_le_bytes, spec_u64_to_le_bytes, u16_to_le_bytes, u32_to_le_bytes, u64_to_le_bytes};
use vstd::utf8::encode_utf8;

use crate::bytes::{array32, bytes_equal, extend_bytes, hex_lower, hex_lower_chars, hex_value, hex_value_exec, string_from_chars};
use crate::crypto::hash::{blake3_digest, hash_bytes, FileId};
use crate::file::manifest::ChunkMeta;

verus! {

/// The version of the descriptor format.
pub const ETLE_DESCRIPTOR_VERSION: u16 = 1;

/// The id of a share: the BLAKE3 hash of its descriptor.
#[derive(Clone, Copy, Debug, Hash, PartialOrd, Ord)]
pub struct ShareId(pub [u8; 32]);

impl PartialEq for ShareId {
    fn eq(&self, other: &Self) -> (r: bool) {
        bytes_equal(&self.0, &other.0)
    }
}

impl Eq for ShareId {}

impl vstd::std_specs::cmp::PartialEqSpecImpl for ShareId {
    open spec fn obeys_eq_spec() -> bool {
        true
    }

    open spec fn eq_spec(&self, other: &Self) -> bool {
        self.0@ == other.0@
    }
}

/// A share id text was not 64 hexadecimal digits.
#[derive(Clone, Copy, Debug, PartialEq, Eq, Structural)]
pub struct ParseShareIdError;

impl ParseShareIdError {
    /// The message of the error.
    pub fn message(&self) -> (s: &'static str)
        ensures
            s@ == "share id must be 64 lowercase/uppercase hexadecimal characters"@,
    {
        "share id must be 64 lowercase/uppercase hexadecimal characters"
    }
}

/// The bytes that 2n hexadecimal digits denote, when they all are digits.
pub open spec fn hex_decode(text: Seq<u8>) -> Option<Seq<u8>>
    decreases text.len(),
{
    if text.len() < 2 {
        if text.len() == 0 { Some(Seq::empty()) } else { None }
    } else {
        match (hex_decode(text.drop_last().drop_last()), hex_value(text[text.len() - 2]), hex_value(text.last())) {
            (Some(prefix), Some(high), Some(low)) => Some(prefix.push((high * 16 + low) as u8)),
            _ => None,
        }
    }
}

/// What parsing a share id gives: the 32 bytes that 64 hexadecimal digits
/// denote.
pub open spec fn parse_share_id(text: Seq<u8>) -> Option<Seq<u8>> {
    if text.len() == 64 {
        hex_decode(text)
    } else {
        None
    }
}

/// An ASCII hexadecimal digit, of either case.
pub open spec fn ascii_hex_digit(c: u8) -> bool {
    (48 <= c <= 57) || (97 <= c <= 102) || (65 <= c <= 70)
}

proof fn lemma_hex_decode_some(text: Seq<u8>)
    ensures
        hex_decode(text) is Some <==> (text.len() % 2 == 0 && forall|i: int| 0 <= i < text.len() ==> ascii_hex_digit(#[trigger] text[i])),
    decreases text.len(),
{
    if text.len() == 1 {
        assert(text.len() % 2 == 1);
    } else if text.len() >= 2 {
        let rest = text.drop_last().drop_last();
        lemma_hex_decode_some(rest);
        assert forall|i: int| 0 <= i < rest.len() implies rest[i] == #[trigger] text[i] by {}
        if forall|i: int| 0 <= i < text.len() ==> ascii_hex_digit(#[trigger] text[i]) {
            assert(ascii_hex_digit(text[text.len() - 2]));
            assert(ascii_hex_digit(text[text.len() - 1]));
            assert forall|i: int| 0 <= i < rest.len() implies ascii_hex_digit(#[trigger] rest[i]) by {
                assert(rest[i] == text[i]);
            }
        }
        if hex_decode(text) is Some {
            assert forall|i: int| 0 <= i < text.len() implies ascii_hex_digit(#[trigger] text[i]) by {
                if i < rest.len() {
                    assert(rest[i] == text[i]);
                }
            }
        }
    }
}

/// A share id text is accepted exactly when it is 64 ASCII hexadecimal
/// digits, of either case.
pub proof fn lemma_share_id_accepts(text: Seq<u8>)
    ensures
        parse_share_id(text) is Some <==> (text.len() == 64 && forall|i: int| 0 <= i < text.len() ==> ascii_hex_digit(#[trigger] text[i])),
{
    lemma_hex_decode_some(text);
}

proof fn lemma_hex_decode_len(text: Seq<u8>)
    ensures
        hex_decode(text) matches Some(b) ==> 2 * b.len() == text.len(),
    decreases text.len(),
{
    if text.len() >= 2 {
        lemma_hex_decode_len(text.drop_last().drop_last());
    }
}

proof fn lemma_hex_digit_value(n: u8)
    requires
        n < 16,
    ensures
        hex_value(crate::bytes::hex_digit(n) as u8) == Some(n),
{
}

/// The ASCII bytes of hexadecimal text.
pub open spec fn ascii_bytes(text: Seq<char>) -> Seq<u8> {
    text.map_values(|c: char| c as u8)
}

/// Hexadecimal text of bytes decodes to the bytes.
pub proof fn lemma_hex_roundtrip(bytes: Seq<u8>)
    ensures
        hex_decode(ascii_bytes(hex_lower(bytes))) == Some(bytes),
    decreases bytes.len(),
{
    if bytes.len() > 0 {
        let prefix = bytes.drop_last();
        let b = bytes.last();
        lemma_hex_roundtrip(prefix);
        let t = ascii_bytes(hex_lower(bytes));
        assert(hex_lower(bytes) == hex_lower(prefix) + seq![crate::bytes::hex_digit(b / 16), crate::bytes::hex_digit(b % 16)]);
        assert(t.drop_last().drop_last() =~= ascii_bytes(hex_lower(prefix)));
        lemma_hex_digit_value(b / 16);
        lemma_hex_digit_value(b % 16);
        assert(((b / 16) * 16 + b % 16) as u8 == b);
        assert(prefix.push(b) =~= bytes);
    } else {
        assert(ascii_bytes(hex_lower(bytes)) =~= Seq::<u8>::empty());
    }
}


proof fn lemma_hex_lower_ascii(bytes: Seq<u8>)
    ensures
        hex_lower(bytes).len() == 2 * bytes.len(),
        vstd::utf8::is_ascii_chars(hex_lower(bytes)),
    decreases bytes.len(),
{
    if bytes.len() > 0 {
        lemma_hex_lower_ascii(bytes.drop_last());
        let h = hex_lower(bytes);
        let p = hex_lower(bytes.drop_last());
        assert forall|i: int| 0 <= i < h.len() implies '\0' <= #[trigger] h[i] <= '\u{7f}' by {
            if i < p.len() {
                assert(h[i] == p[i]);
            }
        }
    }
}

/// The text of a share id parses back to the share id.
pub proof fn lemma_share_id_text_roundtrip(id: ShareId)
    ensures
        parse_share_id(encode_utf8(hex_lower(id.0@))) == Some(id.0@),
{
    let h = hex_lower(id.0@);
    lemma_hex_lower_ascii(id.0@);
    vstd::utf8::is_ascii_chars_encode_utf8(h);
    assert(encode_utf8(h) =~= ascii_bytes(h));
    lemma_hex_roundtrip(id.0@);
}

impl ShareId {
    /// The 32 id bytes.
    pub fn as_bytes(&self) -> (r: &[u8; 32])
        ensures
            r@ == self.0@,
    {
        &self.0
    }

    /// Lowercase hexadecimal text of the id (64 characters).
    pub fn to_string(&self) -> (s: String)
        ensures
            s@ == hex_lower(self.0@),
    {
        let chars = hex_lower_chars(&self.0);
        string_from_chars(&chars)
    }

    /// Parses 64 hexadecimal digits of either case.
    pub fn parse(value: &str) -> (r: Result<ShareId, ParseShareIdError>)
        ensures
            match parse_share_id(encode_utf8(value@)) {
                Some(bytes) => r matches Ok(id) && id.0@ == bytes,
                None => r == Err::<ShareId, ParseShareIdError>(ParseShareIdError),
            },
    {
        let text = value.as_bytes();
        if text.len() != 64 {
            return Err(ParseShareIdError);
        }
        let mut out: Vec<u8> = Vec::new();
        let mut i: usize = 0;
        while i < 32
            invariant
                i <= 32,
                text@.len() == 64,
                text@ == encode_utf8(value@),
                hex_decode(text@.take(2 * i as int)) == Some(out@),
            decreases 32 - i,
        {
            let high = hex_value_exec(text[2 * i]);
            let low = hex_value_exec(text[2 * i + 1]);
            proof {
                let t = text@.take(2 * i + 2);
                assert(t.drop_last().drop_last() =~= text@.take(2 * i as int));
                assert(t[t.len() - 2] == text@[2 * i as int]);
                assert(t.last() == text@[2 * i + 1]);
            }
            match (high, low) {
                (Some(h), Some(l)) => {
                    out.push(h * 16 + l);
                }
                _ => {
                    proof {
                        let t = text@.take(2 * i + 2);
                        assert(hex_decode(t) is None);
                        lemma_hex_decode_prefix_none(text@, 2 * i + 2);
                    }
                    assert(text@.take(64) =~= text@);
                    return Err(ParseShareIdError);
                }
            }
            i = i + 1;
        }
        assert(text@.take(64) =~= text@);
        proof {
            lemma_hex_decode_len(text@);
        }
        Ok(ShareId(array32(out.as_slice())))
    }
}

/// Once a prefix of even length fails to decode, the whole text fails.
proof fn lemma_hex_decode_prefix_none(text: Seq<u8>, n: int)
    requires
        0 <= n <= text.len(),
        n % 2 == 0,
        text.len() % 2 == 0,
        hex_decode(text.take(n)) is None,
    ensures
        hex_decode(text) is None,
    decreases text.len() - n,
{
    if n < text.len() {
        let t = text.take(n + 2);
        assert(t.drop_last().drop_last() =~= text.take(n));
        lemma_hex_decode_prefix_none(text, n + 2);
    } else {
        assert(text.take(n) =~= text);
    }
}

impl core::str::FromStr for ShareId {
    type Err = ParseShareIdError;

    fn from_str(value: &str) -> (r: Result<Self, Self::Err>)
        ensures
            match parse_share_id(encode_utf8(value@)) {
                Some(bytes) => r matches Ok(id) && id.0@ == bytes,
                None => r == Err::<ShareId, ParseShareIdError>(ParseShareIdError),
            },
    {
        ShareId::parse(value)
    }
}

/// The cipher suite of a share.
#[derive(Clone, Copy, Debug, PartialEq, Eq, Structural)]
pub enum CryptoSuite {
    XChaCha20Poly1305Blake3X25519V1,
}

/// The domain tag of a cipher suite.
pub open spec fn domain_tag(suite: CryptoSuite) -> Seq<u8> {
    match suite {
        CryptoSuite::XChaCha20Poly1305Blake3X25519V1 => encode_utf8("xchacha20poly1305+blake3+x25519:v1"@),
    }
}

impl CryptoSuite {
    /// The domain tag of the suite.
    pub fn as_domain_tag(self) -> (r: &'static [u8])
        ensures
            r@ == domain_tag(self),
    {
        match self {
            CryptoSuite::XChaCha20Poly1305Blake3X25519V1 => "xchacha20poly1305+blake3+x25519:v1".as_bytes(),
        }
    }
}

impl Default for CryptoSuite {
    fn default() -> (r: Self)
        ensures
            r == CryptoSuite::XChaCha20Poly1305Blake3X25519V1,
    {
        CryptoSuite::XChaCha20Poly1305Blake3X25519V1
    }
}

/// One file of a package: its path in the package, size, offset in the
/// package's byte stream, and hash.
#[derive(Clone, Debug)]
pub struct FileEntry {
    pub path: String,
    pub size: u64,
    pub offset: u64,
    pub blake3_hash: FileId,
}

impl FileEntry {
    /// The offset just past the file in the package's byte stream.
    pub fn end_offset(&self) -> (r: u64)
        requires
            self.offset + self.size <= u64::MAX,
        ensures
            r == self.offset + self.size,
    {
        self.offset + self.size
    }

    /// A copy of the entry.
    pub fn copy(&self) -> (r: FileEntry)
        ensures
            r.path@ == self.path@,
            r.size == self.size,
            r.offset == self.offset,
            r.blake3_hash == self.blake3_hash,
    {
        FileEntry { path: self.path.clone(), size: self.size, offset: self.offset, blake3_hash: self.blake3_hash }
    }
}

/// A share descriptor: what a peer needs to fetch and verify a share.
#[derive(Debug)]
pub struct EtleDescriptor {
    pub version: u16,
    pub name: String,
    pub share_id: ShareId,
    pub total_size: u64,
    pub chunk_size: u64,
    pub crypto: CryptoSuite,
    pub files: Vec<FileEntry>,
    pub chunks: Vec<ChunkMeta>,
}

/// A string in the share id input: its UTF-8 length (u64, little-endian), then
/// its UTF-8 bytes.
pub open spec fn string_field(s: Seq<char>) -> Seq<u8> {
    spec_u64_to_le_bytes(encode_utf8(s).len() as u64) + encode_utf8(s)
}

/// A file entry in the share id input.
pub open spec fn file_entry_field(f: FileEntry) -> Seq<u8> {
    string_field(f.path@) + spec_u64_to_le_bytes(f.size) + spec_u64_to_le_bytes(f.offset) + f.blake3_hash.0@
}

/// A chunk's metadata in the share id input.
pub open spec fn chunk_meta_field(c: ChunkMeta) -> Seq<u8> {
    spec_u32_to_le_bytes(c.index) + spec_u64_to_le_bytes(c.plain_size) + spec_u64_to_le_bytes(c.encrypted_size)
        + c.nonce.0@ + c.blake3_hash.0@
}

/// The file entries in the share id input, in order.
pub open spec fn file_entries_field(files: Seq<FileEntry>) -> Seq<u8>
    decreases files.len(),
{
    if files.len() == 0 {
        Seq::empty()
    } else {
        file_entries_field(files.drop_last()) + file_entry_field(files.last())
    }
}

/// The chunks' metadata in the share id input, in order.
pub open spec fn chunk_metas_field(chunks: Seq<ChunkMeta>) -> Seq<u8>
    decreases chunks.len(),
{
    if chunks.len() == 0 {
        Seq::empty()
    } else {
        chunk_metas_field(chunks.drop_last()) + chunk_meta_field(chunks.last())
    }
}

/// The input that the share id hashes: a domain label, the version, name,
/// sizes and suite, then the counted file entries and chunk metadata.
pub open spec fn share_id_input(
    version: u16,
    name: Seq<char>,
    total_size: u64,
    chunk_size: u64,
    crypto: CryptoSuite,
    files: Seq<FileEntry>,
    chunks: Seq<ChunkMeta>,
) -> Seq<u8> {
    encode_utf8("etle descriptor share id v1"@) + spec_u16_to_le_bytes(version) + string_field(name)
        + spec_u64_to_le_bytes(total_size) + spec_u64_to_le_bytes(chunk_size) + domain_tag(crypto)
        + spec_u64_to_le_bytes(files.len() as u64) + file_entries_field(files)
        + spec_u64_to_le_bytes(chunks.len() as u64) + chunk_metas_field(chunks)
}

/// The share id of a descriptor's fields.
pub open spec fn share_id_of(
    version: u16,
    name: Seq<char>,
    total_size: u64,
    chunk_size: u64,
    crypto: CryptoSuite,
    files: Seq<FileEntry>,
    chunks: Seq<ChunkMeta>,
) -> Seq<u8> {
    blake3_digest(share_id_input(version, name, total_size, chunk_size, crypto, files, chunks))
}

/// The share id that a descriptor's own fields give.
pub open spec fn descriptor_share_id(d: EtleDescriptor) -> Seq<u8> {
    share_id_of(d.version, d.name@, d.total_size, d.chunk_size, d.crypto, d.files@, d.chunks@)
}

proof fn lemma_file_entries_concat(a: Seq<FileEntry>, b: Seq<FileEntry>)
    ensures
        file_entries_field(a + b) == file_entries_field(a) + file_entries_field(b),
    decreases b.len(),
{
    if b.len() == 0 {
        assert(a + b =~= a);
        assert(file_entries_field(a) + file_entries_field(b) =~= file_entries_field(a));
    } else {
        lemma_file_entries_concat(a, b.drop_last());
        assert((a + b).drop_last() =~= a + b.drop_last());
        assert((a + b).last() == b.last());
        assert(file_entries_field(a) + file_entries_field(b) =~= file_entries_field(a) + file_entries_field(b.drop_last())
            + file_entry_field(b.last()));
    }
}

/// Different strings have different fields: the length comes first, then the
/// UTF-8 bytes, so some byte within both fields differs.
proof fn lemma_string_fields_differ(x: Seq<char>, y: Seq<char>) -> (j: int)
    requires
        x != y,
        encode_utf8(x).len() <= u64::MAX,
        encode_utf8(y).len() <= u64::MAX,
    ensures
        0 <= j < string_field(x).len(),
        j < string_field(y).len(),
        string_field(x)[j] != string_field(y)[j],
{
    vstd::bytes::lemma_auto_spec_u64_to_from_le_bytes();
    let ex = encode_utf8(x);
    let ey = encode_utf8(y);
    let lx = spec_u64_to_le_bytes(ex.len() as u64);
    let ly = spec_u64_to_le_bytes(ey.len() as u64);
    if ex.len() != ey.len() {
        assert(lx != ly);
        assert(!(lx =~= ly));
        let j = choose|j: int| 0 <= j < 8 && lx[j] != ly[j];
        assert(string_field(x)[j] == lx[j]);
        assert(string_field(y)[j] == ly[j]);
        j
    } else {
        vstd::utf8::encode_utf8_decode_utf8(x);
        vstd::utf8::encode_utf8_decode_utf8(y);
        assert(ex != ey);
        assert(!(ex =~= ey));
        let k = choose|k: int| 0 <= k < ex.len() && ex[k] != ey[k];
        assert(string_field(x)[8 + k] == ex[k]);
        assert(string_field(y)[8 + k] == ey[k]);
        8 + k
    }
}

proof fn lemma_entries_around(files: Seq<FileEntry>, k: int)
    requires
        0 <= k < files.len(),
    ensures
        file_entries_field(files) == file_entries_field(files.take(k)) + file_entry_field(files[k])
            + file_entries_field(files.skip(k + 1)),
{
    let head = files.take(k);
    let tail = files.skip(k + 1);
    let one = seq![files[k]];
    assert(files =~= head + (one + tail));
    lemma_file_entries_concat(head, one + tail);
    lemma_file_entries_concat(one, tail);
    assert(one.drop_last() =~= Seq::<FileEntry>::empty());
    assert(file_entries_field(one.drop_last()) =~= Seq::<u8>::empty());
    assert(file_entries_field(one) =~= file_entry_field(files[k]));
    assert(file_entries_field(head) + (file_entry_field(files[k]) + file_entries_field(tail))
        =~= file_entries_field(head) + file_entry_field(files[k]) + file_entries_field(tail));
}

proof fn lemma_le_bytes_differ(x: u64, y: u64) -> (j: int)
    requires
        x != y,
    ensures
        0 <= j < 8,
        spec_u64_to_le_bytes(x).len() == 8,
        spec_u64_to_le_bytes(y).len() == 8,
        spec_u64_to_le_bytes(x)[j] != spec_u64_to_le_bytes(y)[j],
{
    vstd::bytes::lemma_auto_spec_u64_to_from_le_bytes();
    let lx = spec_u64_to_le_bytes(x);
    let ly = spec_u64_to_le_bytes(y);
    assert(!(lx =~= ly));
    choose|j: int| 0 <= j < 8 && lx[j] != ly[j]
}

/// The fields of two file entries that differ in path, size, offset or hash
/// differ in some byte.
proof fn lemma_entry_fields_differ(f1: FileEntry, f2: FileEntry) -> (j: int)
    requires
        f1.path@ != f2.path@ || f1.size != f2.size || f1.offset != f2.offset || f1.blake3_hash.0@ != f2.blake3_hash.0@,
        encode_utf8(f1.path@).len() <= u64::MAX,
        encode_utf8(f2.path@).len() <= u64::MAX,
    ensures
        0 <= j < file_entry_field(f1).len(),
        j < file_entry_field(f2).len(),
        file_entry_field(f1)[j] != file_entry_field(f2)[j],
{
    vstd::bytes::lemma_auto_spec_u64_to_from_le_bytes();
    let e1 = file_entry_field(f1);
    let e2 = file_entry_field(f2);
    let (s1, s2) = (string_field(f1.path@), string_field(f2.path@));
    let (z1, z2) = (spec_u64_to_le_bytes(f1.size), spec_u64_to_le_bytes(f2.size));
    let (o1, o2) = (spec_u64_to_le_bytes(f1.offset), spec_u64_to_le_bytes(f2.offset));
    let (h1, h2) = (f1.blake3_hash.0@, f2.blake3_hash.0@);
    assert(e1 =~= s1 + (z1 + (o1 + h1)));
    assert(e2 =~= s2 + (z2 + (o2 + h2)));
    if f1.path@ != f2.path@ {
        lemma_string_fields_differ(f1.path@, f2.path@)
    } else {
        let n = s1.len() as int;
        if f1.size != f2.size {
            let jj = lemma_le_bytes_differ(f1.size, f2.size);
            assert(e1[n + jj] == z1[jj]);
            assert(e2[n + jj] == z2[jj]);
            n + jj
        } else if f1.offset != f2.offset {
            let jj = lemma_le_bytes_differ(f1.offset, f2.offset);
            assert(e1[n + 8 + jj] == o1[jj]);
            assert(e2[n + 8 + jj] == o2[jj]);
            n + 8 + jj
        } else {
            assert(!(h1 =~= h2));
            let jj = choose|jj: int| 0 <= jj < 32 && h1[jj] != h2[jj];
            assert(e1[n + 16 + jj] == h1[jj]);
            assert(e2[n + 16 + jj] == h2[jj]);
            n + 16 + jj
        }
    }
}

/// What the share id input holds before the file entries.
spec fn input_head(version: u16, name: Seq<char>, total_size: u64, chunk_size: u64, crypto: CryptoSuite, file_count: nat) -> Seq<u8> {
    encode_utf8("etle descriptor share id v1"@) + spec_u16_to_le_bytes(version) + string_field(name)
        + spec_u64_to_le_bytes(total_size) + spec_u64_to_le_bytes(chunk_size) + domain_tag(crypto)
        + spec_u64_to_le_bytes(file_count as u64)
}

/// What the share id input holds after the file entries.
spec fn input_tail(chunks: Seq<ChunkMeta>) -> Seq<u8> {
    spec_u64_to_le_bytes(chunks.len() as u64) + chunk_metas_field(chunks)
}

proof fn lemma_input_parts(
    version: u16,
    name: Seq<char>,
    total_size: u64,
    chunk_size: u64,
    crypto: CryptoSuite,
    files: Seq<FileEntry>,
    chunks: Seq<ChunkMeta>,
)
    ensures
        share_id_input(version, name, total_size, chunk_size, crypto, files, chunks)
            == input_head(version, name, total_size, chunk_size, crypto, files.len()) + file_entries_field(files) + input_tail(chunks),
{
    assert(share_id_input(version, name, total_size, chunk_size, crypto, files, chunks)
        =~= input_head(version, name, total_size, chunk_size, crypto, files.len()) + file_entries_field(files) + input_tail(chunks));
}

proof fn lemma_differ_inside(p: Seq<u8>, a: Seq<u8>, b: Seq<u8>, q: Seq<u8>, j: int)
    requires
        0 <= j < a.len(),
        j < b.len(),
        a[j] != b[j],
    ensures
        p + a + q != p + b + q,
{
    assert((p + a + q)[p.len() + j] == a[j]);
    assert((p + b + q)[p.len() + j] == b[j]);
}

/// The share id hashes every file's entry: the fields of two descriptors that
/// differ only in one file's path, size, offset or hash give different
/// share-id inputs, so, say, a renamed file does not keep its package's share
/// id (unless the hash collides).
pub proof fn lemma_share_id_input_holds_paths(
    version: u16,
    name: Seq<char>,
    total_size: u64,
    chunk_size: u64,
    crypto: CryptoSuite,
    files1: Seq<FileEntry>,
    files2: Seq<FileEntry>,
    chunks: Seq<ChunkMeta>,
    k: int,
)
    requires
        files1.len() == files2.len(),
        0 <= k < files1.len(),
        forall|i: int| 0 <= i < files1.len() && i != k ==> files1[i] == files2[i],
        files1[k].path@ != files2[k].path@ || files1[k].size != files2[k].size || files1[k].offset != files2[k].offset
            || files1[k].blake3_hash.0@ != files2[k].blake3_hash.0@,
        encode_utf8(files1[k].path@).len() <= u64::MAX,
        encode_utf8(files2[k].path@).len() <= u64::MAX,
    ensures
        share_id_input(version, name, total_size, chunk_size, crypto, files1, chunks)
            != share_id_input(version, name, total_size, chunk_size, crypto, files2, chunks),
{
    let head = files1.take(k);
    let tail = files1.skip(k + 1);
    assert(files2.take(k) =~= head);
    assert(files2.skip(k + 1) =~= tail);
    lemma_entries_around(files1, k);
    lemma_entries_around(files2, k);
    lemma_input_parts(version, name, total_size, chunk_size, crypto, files1, chunks);
    lemma_input_parts(version, name, total_size, chunk_size, crypto, files2, chunks);
    let e1 = file_entry_field(files1[k]);
    let e2 = file_entry_field(files2[k]);
    let j = lemma_entry_fields_differ(files1[k], files2[k]);
    let h = input_head(version, name, total_size, chunk_size, crypto, files1.len());
    let t = input_tail(chunks);
    let p = h + file_entries_field(head);
    let q = file_entries_field(tail) + t;
    assert(h + (file_entries_field(head) + e1 + file_entries_field(tail)) + t =~= p + e1 + q);
    assert(h + (file_entries_field(head) + e2 + file_entries_field(tail)) + t =~= p + e2 + q);
    lemma_differ_inside(p, e1, e2, q, j);
}

fn push_string_field(out: &mut Vec<u8>, value: &str)
    ensures
        final(out)@ == old(out)@ + string_field(value@),
{
    let bytes = value.as_bytes();
    let len = u64_to_le_bytes(bytes.len() as u64);
    extend_bytes(out, len.as_slice());
    extend_bytes(out, bytes);
}

fn push_u64(out: &mut Vec<u8>, value: u64)
    ensures
        final(out)@ == old(out)@ + spec_u64_to_le_bytes(value),
{
    let b = u64_to_le_bytes(value);
    extend_bytes(out, b.as_slice());
}

fn compute_share_id(
    version: u16,
    name: &str,
    total_size: u64,
    chunk_size: u64,
    crypto: CryptoSuite,
    files: &[FileEntry],
    chunks: &[ChunkMeta],
) -> (r: ShareId)
    ensures
        r.0@ == share_id_of(version, name@, total_size, chunk_size, crypto, files@, chunks@),
{
    let mut input: Vec<u8> = Vec::new();
    extend_bytes(&mut input, "etle descriptor share id v1".as_bytes());
    let v = u16_to_le_bytes(version);
    extend_bytes(&mut input, v.as_slice());
    push_string_field(&mut input, name);
    push_u64(&mut input, total_size);
    push_u64(&mut input, chunk_size);
    extend_bytes(&mut input, crypto.as_domain_tag());
    push_u64(&mut input, files.len() as u64);
    let ghost head = input@;
    let mut i: usize = 0;
    while i < files.len()
        invariant
            i <= files.len(),
            input@ == head + file_entries_field(files@.take(i as int)),
        decreases files.len() - i,
    {
        let f = &files[i];
        push_string_field(&mut input, f.path.as_str());
        push_u64(&mut input, f.size);
        push_u64(&mut input, f.offset);
        extend_bytes(&mut input, f.blake3_hash.as_bytes());
        proof {
            assert(files@.take(i + 1).drop_last() =~= files@.take(i as int));
        }
        i = i + 1;
        assert(input@ =~= head + file_entries_field(files@.take(i as int)));
    }
    assert(files@.take(files.len() as int) =~= files@);
    push_u64(&mut input, chunks.len() as u64);
    let ghost head2 = input@;
    let mut j: usize = 0;
    while j < chunks.len()
        invariant
            j <= chunks.len(),
            input@ == head2 + chunk_metas_field(chunks@.take(j as int)),
        decreases chunks.len() - j,
    {
        let c = &chunks[j];
        let ib = u32_to_le_bytes(c.index);
        extend_bytes(&mut input, ib.as_slice());
        push_u64(&mut input, c.plain_size);
        push_u64(&mut input, c.encrypted_size);
        extend_bytes(&mut input, c.nonce.as_bytes());
        extend_bytes(&mut input, c.blake3_hash.as_bytes());
        proof {
            assert(chunks@.take(j + 1).drop_last() =~= chunks@.take(j as int));
        }
        j = j + 1;
        assert(input@ =~= head2 + chunk_metas_field(chunks@.take(j as int)));
    }
    assert(chunks@.take(chunks.len() as int) =~= chunks@);
    assert(input@ =~= share_id_input(version, name@, total_size, chunk_size, crypto, files@, chunks@));
    ShareId(hash_bytes(input.as_slice()))
}

impl EtleDescriptor {
    /// A descriptor of the current version and suite, with its share id
    /// computed from its fields.
    pub fn new(name: &str, total_size: u64, chunk_size: u64, files: Vec<FileEntry>, chunks: Vec<ChunkMeta>) -> (r: Self)
        ensures
            r.version == ETLE_DESCRIPTOR_VERSION,
            r.name@ == name@,
            r.total_size == total_size,
            r.chunk_size == chunk_size,
            r.crypto == CryptoSuite::XChaCha20Poly1305Blake3X25519V1,
            r.files@ == files@,
            r.chunks@ == chunks@,
            r.share_id.0@ == descriptor_share_id(r),
    {
        let crypto = CryptoSuite::XChaCha20Poly1305Blake3X25519V1;
        let name = name.to_string();
        let share_id = compute_share_id(
            ETLE_DESCRIPTOR_VERSION,
            name.as_str(),
            total_size,
            chunk_size,
            crypto,
            files.as_slice(),
            chunks.as_slice(),
        );
        EtleDescriptor {
            version: ETLE_DESCRIPTOR_VERSION,
            name,
            share_id,
            total_size,
            chunk_size,
            crypto,
            files,
            chunks,
        }
    }

    /// The share id that the descriptor's fields give.
    pub fn recompute_share_id(&self) -> (r: ShareId)
        ensures
            r.0@ == descriptor_share_id(*self),
    {
        compute_share_id(
            self.version,
            self.name.as_str(),
            self.total_size,
            self.chunk_size,
            self.crypto,
            self.files.as_slice(),
            self.chunks.as_slice(),
        )
    }

    /// Whether the recorded share id is the one the fields give.
    pub fn verify_share_id(&self) -> (r: bool)
        ensures
            r == (self.share_id.0@ == descriptor_share_id(*self)),
    {
        let id = self.recompute_share_id();
        self.share_id == id
    }
}

} // verus!
