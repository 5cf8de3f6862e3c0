//! Packages: one file, or the regular files of a directory, laid out as one
//! byte stream and cut into chunks across file boundaries.

use vstd::prelude::*;

use crate::crypto::hash::FileId;
use crate::file::chunker::{flatten, split_pieces, PlainChunk};
use crate::file::descriptor::FileEntry;
use crate::file::error::FileError;
use crate::file::storage::file_name;
use crate::path::{all_normal, join_with_slash, lemma_names_before, names_before, normal_name, path_before, path_below, path_components, path_strip_prefix, slash_joined, string_views, under_root, written_path};

verus! {

/// A file of a package and where it is read from.
#[derive(Debug)]
pub struct PackageSourceFile {
    pub entry: FileEntry,
    pub source_path: String,
}

/// A package: its name, root, total size and files in stream order.
#[derive(Debug)]
pub struct PackageLayout {
    pub name: String,
    pub root_path: String,
    pub total_size: u64,
    pub files: Vec<PackageSourceFile>,
}

/// A regular file found under a package root: its path, size and hash.
#[derive(Debug)]
pub struct PackageInputFile {
    pub source_path: String,
    pub size: u64,
    pub blake3_hash: FileId,
}

/// `a == b` as file entries.
pub open spec fn same_entry(a: FileEntry, b: FileEntry) -> bool {
    a.path@ == b.path@ && a.size == b.size && a.offset == b.offset && a.blake3_hash == b.blake3_hash
}

impl PackageLayout {
    /// The entries of the package's files, in order, as a descriptor lists them.
    pub fn descriptor_files(&self) -> (r: Vec<FileEntry>)
        ensures
            r@.len() == self.files@.len(),
            forall|i: int| 0 <= i < r@.len() ==> same_entry(#[trigger] r@[i], self.files@[i].entry),
    {
        let mut out: Vec<FileEntry> = Vec::new();
        let mut i: usize = 0;
        while i < self.files.len()
            invariant
                i <= self.files@.len(),
                out@.len() == i,
                forall|j: int| 0 <= j < i ==> same_entry(#[trigger] out@[j], self.files@[j].entry),
            decreases self.files@.len() - i,
        {
            out.push(self.files[i].entry.copy());
            i = i + 1;
        }
        out
    }
}

/// The offset of file `i` in a package stream: the sizes before it added up,
/// saturating at `u64::MAX`.
pub open spec fn stream_offset(sizes: Seq<u64>, i: int) -> u64
    decreases i,
{
    if i <= 0 {
        0
    } else {
        let sum = stream_offset(sizes, i - 1) + sizes[i - 1];
        if sum > u64::MAX { u64::MAX } else { sum as u64 }
    }
}

/// The sizes of the input files.
pub open spec fn input_sizes(files: Seq<PackageInputFile>) -> Seq<u64> {
    files.map_values(|f: PackageInputFile| f.size)
}

/// The layout of a package of one file at `path`, of `size` bytes.
pub fn single_file_layout(path: &str, size: u64, blake3_hash: FileId) -> (r: PackageLayout)
    ensures
        r.root_path@ == path@,
        r.total_size == size,
        r.files@.len() == 1,
        r.files@[0].source_path@ == path@,
        r.files@[0].entry.path@ == r.name@,
        r.files@[0].entry.size == size,
        r.files@[0].entry.offset == 0,
        r.files@[0].entry.blake3_hash == blake3_hash,
        normal_name(path@) ==> r.name@ == path@,
{
    let name = file_name(path);
    let entry = FileEntry { path: name.clone(), size, offset: 0, blake3_hash };
    let mut files: Vec<PackageSourceFile> = Vec::new();
    files.push(PackageSourceFile { entry, source_path: path.to_owned() });
    PackageLayout { name, root_path: path.to_owned(), total_size: size, files }
}

/// `s` is written as normal names with `/` between them, after a leading `/`
/// when `rooted`.
pub open spec fn written_as(rooted: bool, s: Seq<char>) -> bool {
    exists|p: Seq<Seq<char>>| written_path(rooted, p, s)
}

/// The names that `s` is written as.
pub open spec fn path_names(rooted: bool, s: Seq<char>) -> Seq<Seq<char>> {
    choose|p: Seq<Seq<char>>| written_path(rooted, p, s)
}

/// The files' paths are all written as normal names, all rooted or all not.
pub open spec fn inputs_written(rooted: bool, inputs: Seq<PackageInputFile>) -> bool {
    forall|i: int| 0 <= i < inputs.len() ==> written_as(rooted, (#[trigger] inputs[i]).source_path@)
}

/// The files come in the order of their paths' names.
pub open spec fn inputs_in_path_order(rooted: bool, inputs: Seq<PackageInputFile>) -> bool {
    forall|i: int, j: int| 0 <= i < j < inputs.len() ==>
        !names_before(path_names(rooted, (#[trigger] inputs[j]).source_path@), path_names(rooted, (#[trigger] inputs[i]).source_path@))
}

/// Puts the files of a directory package in the order of their paths (as
/// `std::path::Path` orders them): the same files, and, for paths written as
/// normal names, in the order of those names.
pub fn sort_package_inputs(inputs: Vec<PackageInputFile>) -> (r: Vec<PackageInputFile>)
    ensures
        r@.to_multiset() == inputs@.to_multiset(),
        forall|rooted: bool| #[trigger] inputs_written(rooted, inputs@) ==> inputs_in_path_order(rooted, r@),
{
    broadcast use vstd::seq_lib::group_to_multiset_ensures;
    let ghost all = inputs@;
    let mut rest = inputs;
    let mut out: Vec<PackageInputFile> = Vec::new();
    let n = rest.len();
    let mut i: usize = 0;
    assert(all.take(0) =~= Seq::<PackageInputFile>::empty());
    while i < n
        invariant
            n == all.len(),
            i <= n,
            rest@ == all.skip(i as int),
            out@.to_multiset() == all.take(i as int).to_multiset(),
            forall|rooted: bool| #[trigger] inputs_written(rooted, all) ==> inputs_in_path_order(rooted, out@),
        decreases n - i,
    {
        let x = rest.remove(0);
        assert(x == all[i as int]);
        let mut pos: usize = 0;
        let mut found = false;
        while pos < out.len() && !found
            invariant
                i < n,
                n == all.len(),
                pos <= out@.len(),
                x == all[i as int],
                out@.to_multiset() == all.take(i as int).to_multiset(),
                forall|rooted: bool, m: int| #![trigger inputs_written(rooted, all), out@[m]]
                    inputs_written(rooted, all) && 0 <= m < pos ==>
                    !names_before(path_names(rooted, x.source_path@), path_names(rooted, out@[m].source_path@)),
                found ==> pos < out@.len() && forall|rooted: bool| #[trigger] inputs_written(rooted, all) ==>
                    names_before(path_names(rooted, x.source_path@), path_names(rooted, out@[pos as int].source_path@)),
            decreases out@.len() - pos + if found { 0int } else { 1int },
        {
            let before_x = path_before(x.source_path.as_str(), out[pos].source_path.as_str());
            proof {
                assert forall|rooted: bool| #[trigger] inputs_written(rooted, all) implies
                    (before_x <==> names_before(path_names(rooted, x.source_path@), path_names(rooted, out@[pos as int].source_path@))) by {
                    lemma_written_names(rooted, all, i as int);
                    let t = all.take(i as int);
                    assert(out@.contains(out@[pos as int]));
                    vstd::seq_lib::to_multiset_contains(out@, out@[pos as int]);
                    vstd::seq_lib::to_multiset_contains(t, out@[pos as int]);
                    assert(t.contains(out@[pos as int]));
                    let k = choose|k: int| 0 <= k < t.len() && t[k] == out@[pos as int];
                    assert(all[k] == out@[pos as int]);
                    lemma_written_names(rooted, all, k);
                }
            }
            if before_x {
                found = true;
            } else {
                pos = pos + 1;
            }
        }
        let ghost before = out@;
        out.insert(pos, x);
        proof {
            assert(all.take(i + 1) =~= all.take(i as int).insert(i as int, all[i as int]));
            assert(out@ == before.insert(pos as int, x));
            vstd::seq_lib::to_multiset_insert(before, pos as int, x);
            vstd::seq_lib::to_multiset_insert(all.take(i as int), i as int, all[i as int]);
            assert forall|rooted: bool| #[trigger] inputs_written(rooted, all) implies inputs_in_path_order(rooted, out@) by {
                let kx = path_names(rooted, x.source_path@);
                assert forall|a: int, b: int| 0 <= a < b < out@.len() implies
                    !names_before(path_names(rooted, (#[trigger] out@[b]).source_path@), path_names(rooted, (#[trigger] out@[a]).source_path@)) by {
                    if b == pos {
                        assert(out@[a] == before[a]);
                    } else if a == pos {
                        assert(out@[b] == before[b - 1]);
                        let kp = path_names(rooted, before[pos as int].source_path@);
                        let kb = path_names(rooted, before[b - 1].source_path@);
                        lemma_names_before(kb, kx, kp);
                        lemma_names_before(kx, kp, kp);
                        if b - 1 > pos {
                            assert(!names_before(kb, kp));
                        }
                    } else {
                        let a2 = if a < pos { a } else { a - 1 };
                        let b2 = if b < pos { b } else { b - 1 };
                        assert(out@[a] == before[a2]);
                        assert(out@[b] == before[b2]);
                    }
                }
            }
        }
        i = i + 1;
        assert(rest@ =~= all.skip(i as int));
    }
    assert(all.take(n as int) =~= all);
    out
}

/// The names of a written input's path are what it is written as.
proof fn lemma_written_names(rooted: bool, inputs: Seq<PackageInputFile>, k: int)
    requires
        inputs_written(rooted, inputs),
        0 <= k < inputs.len(),
    ensures
        written_path(rooted, path_names(rooted, inputs[k].source_path@), inputs[k].source_path@),
{
    assert(written_as(rooted, inputs[k].source_path@));
}

/// The path of `path` relative to `root`, its components joined with `/`;
/// `PathOutsideRoot` when `root` is not a prefix of it.
pub fn relative_package_path(root: &str, path: &str) -> (r: Result<String, FileError>)
    ensures
        r matches Err(e) ==> (e matches FileError::PathOutsideRoot { path: p, root: q } && p@ == path@ && q@ == root@),
        forall|rooted: bool, b: Seq<Seq<char>>, p: Seq<Seq<char>>|
            #![trigger written_path(rooted, b, root@), written_path(rooted, p, path@)]
            written_path(rooted, b, root@) && written_path(rooted, p, path@) ==> {
                &&& (r is Ok <==> b.is_prefix_of(p))
                &&& b.is_prefix_of(p) ==> (r matches Ok(t) && t@ == slash_joined(p.skip(b.len() as int)))
            },
        under_root(root@, path@) ==> (r matches Ok(t) && t@ == path_below(root@, path@)),
{
    match path_strip_prefix(path, root) {
        None => Err(FileError::PathOutsideRoot { path: path.to_owned(), root: root.to_owned() }),
        Some(relative) => {
            let parts = path_components(relative.as_str());
            let t = join_with_slash(parts.as_slice());
            proof {
                assert forall|rooted: bool, b: Seq<Seq<char>>, p: Seq<Seq<char>>|
                    #![trigger written_path(rooted, b, root@), written_path(rooted, p, path@)]
                    written_path(rooted, b, root@) && written_path(rooted, p, path@) && b.is_prefix_of(p)
                    implies t@ == slash_joined(p.skip(b.len() as int)) by {
                    let q = p.skip(b.len() as int);
                    assert forall|i: int| 0 <= i < q.len() implies normal_name(#[trigger] q[i]) by {
                        assert(q[i] == p[i + b.len()]);
                    }
                    assert(written_path(false, q, relative@));
                }
                if under_root(root@, path@) {
                    let (rooted, b, p) = choose|rooted: bool, b: Seq<Seq<char>>, p: Seq<Seq<char>>|
                        written_path(rooted, b, root@) && written_path(rooted, p, path@) && b.is_prefix_of(p);
                    assert(written_path(rooted, b, root@) && written_path(rooted, p, path@));
                }
            }
            Ok(t)
        },
    }
}

/// The layout of a directory package with root `root`, whose regular files
/// (in stream order) are `inputs`: each file's entry has its path relative to
/// the root, its size, its hash, and its offset in the stream, the sizes
/// before it added up (saturating). An empty directory is refused, and so is
/// a file that does not lie below the root.
pub fn directory_layout(root: &str, inputs: Vec<PackageInputFile>) -> (r: Result<PackageLayout, FileError>)
    ensures
        inputs@.len() == 0 ==> (r matches Err(e) && e == FileError::EmptyPackage),
        r matches Err(e) ==> e == FileError::EmptyPackage || e is PathOutsideRoot,
        inputs@.len() > 0 && (forall|i: int| 0 <= i < inputs@.len() ==> under_root(root@, (#[trigger] inputs@[i]).source_path@))
            ==> r is Ok,
        r matches Ok(layout) ==> {
            &&& layout.root_path@ == root@
            &&& normal_name(root@) ==> layout.name@ == root@
            &&& layout.files@.len() == inputs@.len()
            &&& layout.total_size == stream_offset(input_sizes(inputs@), inputs@.len() as int)
            &&& forall|i: int| 0 <= i < inputs@.len() ==> {
                let f = #[trigger] layout.files@[i];
                &&& f.source_path@ == inputs@[i].source_path@
                &&& f.entry.size == inputs@[i].size
                &&& f.entry.offset == stream_offset(input_sizes(inputs@), i)
                &&& f.entry.blake3_hash == inputs@[i].blake3_hash
                &&& under_root(root@, inputs@[i].source_path@) ==> f.entry.path@ == path_below(root@, inputs@[i].source_path@)
            }
        },
{
    if inputs.len() == 0 {
        return Err(FileError::EmptyPackage);
    }
    let ghost sizes = input_sizes(inputs@);
    let mut files: Vec<PackageSourceFile> = Vec::new();
    let mut offset: u64 = 0;
    let mut i: usize = 0;
    while i < inputs.len()
        invariant
            sizes == input_sizes(inputs@),
            i <= inputs@.len(),
            files@.len() == i,
            offset == stream_offset(sizes, i as int),
            forall|j: int| 0 <= j < i ==> {
                let f = #[trigger] files@[j];
                &&& f.source_path@ == inputs@[j].source_path@
                &&& f.entry.size == inputs@[j].size
                &&& f.entry.offset == stream_offset(sizes, j)
                &&& f.entry.blake3_hash == inputs@[j].blake3_hash
                &&& under_root(root@, inputs@[j].source_path@) ==> f.entry.path@ == path_below(root@, inputs@[j].source_path@)
            },
        decreases inputs@.len() - i,
    {
        let input = &inputs[i];
        let package_path = match relative_package_path(root, input.source_path.as_str()) {
            Ok(p) => p,
            Err(e) => {
                return Err(e);
            },
        };
        let entry = FileEntry { path: package_path, size: input.size, offset, blake3_hash: input.blake3_hash };
        files.push(PackageSourceFile { entry, source_path: input.source_path.clone() });
        offset = offset.saturating_add(input.size);
        i = i + 1;
    }
    Ok(PackageLayout { name: file_name(root), root_path: root.to_owned(), total_size: offset, files })
}

/// The byte views of the files' contents.
pub open spec fn content_views(contents: Seq<Vec<u8>>) -> Seq<Seq<u8>> {
    contents.map_values(|c: Vec<u8>| c@)
}

/// The chunks of a package stream: chunk `i` is the `i`th piece of the
/// concatenated contents, indexed `i` but never above `u32::MAX`.
pub open spec fn is_package_split(chunks: Seq<PlainChunk>, stream: Seq<u8>, chunk_size: nat) -> bool {
    let pieces = split_pieces(stream, chunk_size);
    &&& chunks.len() == pieces.len()
    &&& forall|i: int| 0 <= i < chunks.len() ==> {
        &&& (#[trigger] chunks[i]).data@ == pieces[i]
        &&& chunks[i].index == if i > u32::MAX { u32::MAX as int } else { i }
    }
}

/// Full pieces followed by a shorter rest are the split of their concatenation.
proof fn lemma_split_of_full_pieces(full: Seq<Seq<u8>>, rest: Seq<u8>, size: nat)
    requires
        size > 0,
        rest.len() < size,
        forall|i: int| 0 <= i < full.len() ==> (#[trigger] full[i]).len() == size,
    ensures
        split_pieces(flatten(full) + rest, size) == if rest.len() == 0 { full } else { full.push(rest) },
    decreases full.len(),
{
    if full.len() == 0 {
        assert(flatten(full) + rest =~= rest);
        if rest.len() == 0 {
            assert(split_pieces(rest, size) =~= Seq::<Seq<u8>>::empty());
        }
    } else {
        let tail = full.drop_first();
        assert forall|i: int| 0 <= i < tail.len() implies (#[trigger] tail[i]).len() == size by {
            assert(tail[i] == full[i + 1]);
        }
        lemma_split_of_full_pieces(tail, rest, size);
        crate::file::chunker::lemma_flatten_concat(seq![full[0]], tail);
        assert(seq![full[0]] + tail =~= full);
        let one = seq![full[0]];
        assert(one.drop_last() =~= Seq::<Seq<u8>>::empty());
        assert(flatten(Seq::<Seq<u8>>::empty()) =~= Seq::<u8>::empty());
        assert(flatten(one) =~= full[0]);
        let stream = flatten(full) + rest;
        assert(stream =~= full[0] + (flatten(tail) + rest));
        assert(stream.take(size as int) =~= full[0]);
        assert(stream.skip(size as int) =~= flatten(tail) + rest);
        if rest.len() == 0 {
            assert(seq![full[0]] + tail =~= full);
        } else {
            assert(seq![full[0]] + tail.push(rest) =~= full.push(rest));
        }
        if stream.len() <= size {
            assert(tail.len() == 0);
            assert(flatten(tail) =~= Seq::<u8>::empty());
            assert(rest.len() == 0);
        }
    }
}

/// Cuts the concatenated contents of a package's files into chunks of
/// `chunk_size` bytes (the last possibly shorter); a chunk may span files.
/// A chunk size of 0 is refused. Indices past `u32::MAX` stay at `u32::MAX`.
pub fn package_chunks(contents: &[Vec<u8>], chunk_size: usize) -> (r: Result<Vec<PlainChunk>, FileError>)
    ensures
        chunk_size == 0 ==> (r matches Err(e) && e == FileError::InvalidChunkSize(chunk_size)),
        chunk_size > 0 ==> (r matches Ok(chunks) && is_package_split(chunks@, flatten(content_views(contents@)), chunk_size as nat)),
{
    if chunk_size == 0 {
        return Err(FileError::InvalidChunkSize(chunk_size));
    }
    let ghost size = chunk_size as nat;
    let ghost views = content_views(contents@);
    let mut chunks: Vec<PlainChunk> = Vec::new();
    let mut index: u32 = 0;
    let mut buffer: Vec<u8> = Vec::new();
    let ghost mut full: Seq<Seq<u8>> = Seq::empty();
    let mut f: usize = 0;
    while f < contents.len()
        invariant
            size == chunk_size as nat,
            size > 0,
            views == content_views(contents@),
            f <= contents@.len(),
            buffer@.len() < size,
            full.len() == chunks@.len(),
            flatten(full) + buffer@ == flatten(views.take(f as int)),
            forall|i: int| 0 <= i < full.len() ==> (#[trigger] full[i]).len() == size,
            forall|i: int| 0 <= i < chunks@.len() ==> {
                &&& (#[trigger] chunks@[i]).data@ == full[i]
                &&& chunks@[i].index == if i > u32::MAX { u32::MAX as int } else { i }
            },
            index == if chunks@.len() > u32::MAX { u32::MAX as int } else { chunks@.len() as int },
        decreases contents@.len() - f,
    {
        let data = &contents[f];
        let ghost before_file = flatten(full) + buffer@;
        let mut pos: usize = 0;
        while pos < data.len()
            invariant
                size == chunk_size as nat,
                size > 0,
                pos <= data@.len(),
                buffer@.len() < size,
                full.len() == chunks@.len(),
                flatten(full) + buffer@ == before_file + data@.take(pos as int),
                forall|i: int| 0 <= i < full.len() ==> (#[trigger] full[i]).len() == size,
                forall|i: int| 0 <= i < chunks@.len() ==> {
                    &&& (#[trigger] chunks@[i]).data@ == full[i]
                    &&& chunks@[i].index == if i > u32::MAX { u32::MAX as int } else { i }
                },
                index == if chunks@.len() > u32::MAX { u32::MAX as int } else { chunks@.len() as int },
            decreases data@.len() - pos,
        {
            let free = chunk_size - buffer.len();
            let remaining = data.len() - pos;
            let take = if free < remaining { free } else { remaining };
            let ghost old_buffer = buffer@;
            crate::bytes::extend_bytes(&mut buffer, &data[pos..pos + take]);
            proof {
                assert(data@.subrange(pos as int, pos + take) + Seq::<u8>::empty() =~= data@.subrange(pos as int, pos + take));
                assert(data@.take(pos + take) =~= data@.take(pos as int) + data@.subrange(pos as int, pos + take));
                assert(flatten(full) + buffer@ =~= (flatten(full) + old_buffer) + data@.subrange(pos as int, pos + take));
                assert(flatten(full) + buffer@ =~= before_file + data@.take(pos + take));
            }
            pos = pos + take;
            if buffer.len() == chunk_size {
                let ghost chunk_data = buffer@;
                let mut done: Vec<u8> = Vec::new();
                std::mem::swap(&mut done, &mut buffer);
                proof {
                    crate::file::chunker::lemma_flatten_push(full, chunk_data);
                    full = full.push(chunk_data);
                    assert(buffer@ =~= Seq::<u8>::empty());
                    assert(flatten(full) + buffer@ =~= flatten(full));
                }
                chunks.push(PlainChunk { index, data: done });
                index = index.saturating_add(1);
            }
        }
        proof {
            assert(data@.take(data@.len() as int) =~= data@);
            assert(views.take(f + 1).drop_last() =~= views.take(f as int));
            assert(views[f as int] == data@);
            crate::file::chunker::lemma_flatten_push(views.take(f as int), data@);
            assert(views.take(f as int).push(data@) =~= views.take(f + 1));
        }
        f = f + 1;
    }
    proof {
        assert(views.take(contents@.len() as int) =~= views);
        lemma_split_of_full_pieces(full, buffer@, size);
    }
    if buffer.len() > 0 {
        let ghost rest = buffer@;
        chunks.push(PlainChunk { index, data: buffer });
        proof {
            assert(chunks@.len() == full.push(rest).len());
        }
    }
    Ok(chunks)
}

} // verus!
