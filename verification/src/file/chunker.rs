//! Splitting data into fixed-size chunks and joining chunks back.

use vstd::prelude::*;

use crate::bytes::extend_bytes;
use crate::file::error::FileError;

verus! {

/// The default chunk size, 1 MiB.
pub const DEFAULT_CHUNK_SIZE: usize = 1048576;

/// One plaintext chunk and its position.
#[derive(Debug)]
pub struct PlainChunk {
    pub index: u32,
    pub data: Vec<u8>,
}

/// The pieces of `data` of `size` bytes each, the last one possibly shorter;
/// no pieces for empty data.
pub open spec fn split_pieces(data: Seq<u8>, size: nat) -> Seq<Seq<u8>>
    decreases data.len(),
{
    if size == 0 || data.len() == 0 {
        Seq::empty()
    } else if data.len() <= size {
        seq![data]
    } else {
        seq![data.take(size as int)] + split_pieces(data.skip(size as int), size)
    }
}

/// The concatenation of byte strings, in order.
pub open spec fn flatten(pieces: Seq<Seq<u8>>) -> Seq<u8>
    decreases pieces.len(),
{
    if pieces.len() == 0 {
        Seq::empty()
    } else {
        flatten(pieces.drop_last()) + pieces.last()
    }
}

/// A chunk as a value: its index and its data.
pub open spec fn chunk_view(c: PlainChunk) -> (u32, Seq<u8>) {
    (c.index, c.data@)
}

/// The chunks as values.
pub open spec fn chunk_views(chunks: Seq<PlainChunk>) -> Seq<(u32, Seq<u8>)> {
    chunks.map_values(|c: PlainChunk| chunk_view(c))
}

/// The data of each indexed piece, in order.
pub open spec fn piece_datas(pieces: Seq<(u32, Seq<u8>)>) -> Seq<Seq<u8>> {
    pieces.map_values(|p: (u32, Seq<u8>)| p.1)
}

/// Inserts `x` after every piece whose index is not greater than its own.
pub open spec fn insert_by_index(sorted: Seq<(u32, Seq<u8>)>, x: (u32, Seq<u8>)) -> Seq<(u32, Seq<u8>)>
    decreases sorted.len(),
{
    if sorted.len() == 0 {
        seq![x]
    } else if sorted.last().0 <= x.0 {
        sorted.push(x)
    } else {
        insert_by_index(sorted.drop_last(), x).push(sorted.last())
    }
}

/// The pieces ordered by index; pieces with equal indices keep their order
/// (a stable sort).
pub open spec fn sorted_by_index(pieces: Seq<(u32, Seq<u8>)>) -> Seq<(u32, Seq<u8>)>
    decreases pieces.len(),
{
    if pieces.len() == 0 {
        Seq::empty()
    } else {
        insert_by_index(sorted_by_index(pieces.drop_last()), pieces.last())
    }
}

/// The pieces' indices do not decrease.
pub open spec fn indices_ascending(pieces: Seq<(u32, Seq<u8>)>) -> bool {
    forall|i: int, j: int| 0 <= i <= j < pieces.len() ==> pieces[i].0 <= pieces[j].0
}

/// What joining indexed pieces gives: their data in index order.
pub open spec fn joined(pieces: Seq<(u32, Seq<u8>)>) -> Seq<u8> {
    flatten(piece_datas(sorted_by_index(pieces)))
}

/// Chunk `i` of a split has index `i` and the `i`th piece.
pub open spec fn is_split_of(pieces: Seq<(u32, Seq<u8>)>, data: Seq<u8>, size: nat) -> bool {
    &&& pieces.len() == split_pieces(data, size).len()
    &&& forall|i: int| 0 <= i < pieces.len() ==> (#[trigger] pieces[i]).0 == i && pieces[i].1 == split_pieces(data, size)[i]
}

pub proof fn lemma_flatten_push(pieces: Seq<Seq<u8>>, p: Seq<u8>)
    ensures
        flatten(pieces.push(p)) == flatten(pieces) + p,
{
    assert(pieces.push(p).drop_last() =~= pieces);
}

/// Concatenation distributes over flattening.
pub proof fn lemma_flatten_concat(a: Seq<Seq<u8>>, b: Seq<Seq<u8>>)
    ensures
        flatten(a + b) == flatten(a) + flatten(b),
    decreases b.len(),
{
    if b.len() == 0 {
        assert(a + b =~= a);
        assert(flatten(b) =~= Seq::<u8>::empty());
        assert(flatten(a) + flatten(b) =~= flatten(a));
    } else {
        lemma_flatten_concat(a, b.drop_last());
        assert((a + b).drop_last() =~= a + b.drop_last());
        assert(flatten(a) + flatten(b) =~= flatten(a) + flatten(b.drop_last()) + b.last());
    }
}

/// The pieces of a split, flattened, are the data.
pub proof fn lemma_flatten_split(data: Seq<u8>, size: nat)
    requires
        size > 0,
    ensures
        flatten(split_pieces(data, size)) == data,
    decreases data.len(),
{
    if data.len() == 0 {
        assert(flatten(split_pieces(data, size)) =~= data);
    } else if data.len() <= size {
        let s = split_pieces(data, size);
        assert(s.drop_last() =~= Seq::<Seq<u8>>::empty());
        assert(flatten(Seq::<Seq<u8>>::empty()) =~= Seq::<u8>::empty());
        assert(flatten(s) =~= data);
    } else {
        lemma_flatten_split(data.skip(size as int), size);
        lemma_flatten_concat(seq![data.take(size as int)], split_pieces(data.skip(size as int), size));
        let one = seq![data.take(size as int)];
        assert(one.drop_last() =~= Seq::<Seq<u8>>::empty());
        assert(flatten(Seq::<Seq<u8>>::empty()) =~= Seq::<u8>::empty());
        assert(flatten(one) =~= data.take(size as int));
        assert(data.take(size as int) + data.skip(size as int) =~= data);
    }
}

proof fn lemma_insert_last(sorted: Seq<(u32, Seq<u8>)>, x: (u32, Seq<u8>))
    requires
        forall|i: int| 0 <= i < sorted.len() ==> sorted[i].0 <= x.0,
    ensures
        insert_by_index(sorted, x) == sorted.push(x),
{
}

/// Sorting chunks whose indices already ascend keeps them as they are.
pub proof fn lemma_sorted_ascending(chunks: Seq<(u32, Seq<u8>)>)
    requires
        indices_ascending(chunks),
    ensures
        sorted_by_index(chunks) == chunks,
    decreases chunks.len(),
{
    if chunks.len() > 0 {
        let prefix = chunks.drop_last();
        assert(indices_ascending(prefix));
        lemma_sorted_ascending(prefix);
        lemma_insert_last(prefix, chunks.last());
        assert(prefix.push(chunks.last()) =~= chunks);
    }
}

/// Joining the chunks of a split gives the data back.
pub proof fn lemma_join_of_split(chunks: Seq<(u32, Seq<u8>)>, data: Seq<u8>, size: nat)
    requires
        size > 0,
        is_split_of(chunks, data, size),
    ensures
        joined(chunks) == data,
{
    assert forall|i: int, j: int| 0 <= i <= j < chunks.len() implies chunks[i].0 <= chunks[j].0 by {
        assert(chunks[i].0 == i);
        assert(chunks[j].0 == j);
    }
    lemma_sorted_ascending(chunks);
    assert(piece_datas(chunks) =~= split_pieces(data, size));
    lemma_flatten_split(data, size);
}


proof fn lemma_insert_at(s: Seq<(u32, Seq<u8>)>, x: (u32, Seq<u8>), j: int)
    requires
        0 <= j <= s.len(),
        j == 0 || s[j - 1].0 <= x.0,
        forall|k: int| j <= k < s.len() ==> s[k].0 > x.0,
    ensures
        insert_by_index(s, x) == s.take(j).push(x) + s.skip(j),
    decreases s.len(),
{
    if s.len() == 0 {
        assert(s.take(j).push(x) + s.skip(j) =~= seq![x]);
    } else if j == s.len() {
        assert(s.take(j).push(x) + s.skip(j) =~= s.push(x));
    } else {
        let p = s.drop_last();
        lemma_insert_at(p, x, j);
        assert(p.take(j).push(x) + p.skip(j) + seq![s.last()] =~= s.take(j).push(x) + s.skip(j));
        assert((p.take(j).push(x) + p.skip(j)).push(s.last()) =~= p.take(j).push(x) + p.skip(j) + seq![s.last()]);
    }
}

/// The total length of the pieces.
pub open spec fn total_len(pieces: Seq<Seq<u8>>) -> nat
    decreases pieces.len(),
{
    if pieces.len() == 0 {
        0
    } else {
        total_len(pieces.drop_last()) + pieces.last().len()
    }
}

proof fn lemma_flatten_len(pieces: Seq<Seq<u8>>)
    ensures
        flatten(pieces).len() == total_len(pieces),
    decreases pieces.len(),
{
    if pieces.len() > 0 {
        lemma_flatten_len(pieces.drop_last());
    }
}

proof fn lemma_insert_by_index_len(s: Seq<(u32, Seq<u8>)>, x: (u32, Seq<u8>))
    ensures
        total_len(piece_datas(insert_by_index(s, x))) == total_len(piece_datas(s)) + x.1.len(),
    decreases s.len(),
{
    if s.len() == 0 {
        assert(piece_datas(seq![x]).drop_last() =~= Seq::<Seq<u8>>::empty());
        assert(piece_datas(s) =~= Seq::<Seq<u8>>::empty());
    } else if s.last().0 <= x.0 {
        assert(piece_datas(s.push(x)).drop_last() =~= piece_datas(s));
    } else {
        let t = insert_by_index(s.drop_last(), x);
        lemma_insert_by_index_len(s.drop_last(), x);
        assert(piece_datas(t.push(s.last())).drop_last() =~= piece_datas(t));
        assert(piece_datas(s).drop_last() =~= piece_datas(s.drop_last()));
    }
}

proof fn lemma_sorted_by_index_len(pieces: Seq<(u32, Seq<u8>)>)
    ensures
        total_len(piece_datas(sorted_by_index(pieces))) == total_len(piece_datas(pieces)),
    decreases pieces.len(),
{
    if pieces.len() == 0 {
        assert(piece_datas(pieces) =~= Seq::<Seq<u8>>::empty());
        assert(piece_datas(sorted_by_index(pieces)) =~= Seq::<Seq<u8>>::empty());
    } else {
        lemma_sorted_by_index_len(pieces.drop_last());
        lemma_insert_by_index_len(sorted_by_index(pieces.drop_last()), pieces.last());
        assert(piece_datas(pieces).drop_last() =~= piece_datas(pieces.drop_last()));
    }
}

/// Joining loses and adds nothing: the result is as long as all the pieces'
/// data together.
pub proof fn lemma_joined_len(pieces: Seq<(u32, Seq<u8>)>)
    ensures
        joined(pieces).len() == total_len(piece_datas(pieces)),
{
    lemma_flatten_len(piece_datas(sorted_by_index(pieces)));
    lemma_sorted_by_index_len(pieces);
}

/// Concatenates the chunks' data in ascending index order; chunks with equal
/// indices keep their order.
pub fn join_chunks(chunks: &[PlainChunk]) -> (r: Vec<u8>)
    ensures
        r@ == joined(chunk_views(chunks@)),
        r@.len() == total_len(piece_datas(chunk_views(chunks@))),
{
    proof {
        lemma_joined_len(chunk_views(chunks@));
    }
    let ghost views = chunk_views(chunks@);
    let mut order: Vec<usize> = Vec::new();
    let ghost mut sorted: Seq<(u32, Seq<u8>)> = Seq::empty();
    let mut i: usize = 0;
    while i < chunks.len()
        invariant
            i <= chunks.len(),
            views == chunk_views(chunks@),
            sorted == sorted_by_index(views.take(i as int)),
            order@.len() == sorted.len(),
            forall|k: int| #![trigger order@[k]] 0 <= k < order@.len() ==> order@[k] < chunks.len() && views[order@[k] as int] == sorted[k],
        decreases chunks.len() - i,
    {
        let key = chunks[i].index;
        let mut j: usize = order.len();
        while j > 0 && chunks[order[j - 1]].index > key
            invariant
                j <= order@.len(),
                order@.len() == sorted.len(),
                forall|k: int| #![trigger order@[k]] 0 <= k < order@.len() ==> order@[k] < chunks.len() && views[order@[k] as int] == sorted[k],
                views == chunk_views(chunks@),
                forall|k: int| j <= k < sorted.len() ==> sorted[k].0 > key,
            decreases j,
        {
            j = j - 1;
        }
        proof {
            let x = views[i as int];
            lemma_insert_at(sorted, x, j as int);
            assert(views.take(i + 1).drop_last() =~= views.take(i as int));
            assert(views.take(i + 1).last() == x);
            sorted = sorted.take(j as int).push(x) + sorted.skip(j as int);
        }
        let ghost old_order = order@;
        order.insert(j, i);
        proof {
            assert forall|k: int| #![trigger order@[k]] 0 <= k < order@.len() implies order@[k] < chunks.len() && views[order@[k] as int] == sorted[k] by {
                if k < j {
                    assert(order@[k] == old_order[k]);
                } else if k > j {
                    assert(order@[k] == old_order[k - 1]);
                }
            }
        }
        i = i + 1;
    }
    assert(views.take(chunks.len() as int) =~= views);
    let mut out: Vec<u8> = Vec::new();
    let mut k: usize = 0;
    while k < order.len()
        invariant
            k <= order@.len(),
            order@.len() == sorted.len(),
            views == chunk_views(chunks@),
            sorted == sorted_by_index(views),
            forall|m: int| #![trigger order@[m]] 0 <= m < order@.len() ==> order@[m] < chunks.len() && views[order@[m] as int] == sorted[m],
            out@ == flatten(piece_datas(sorted.take(k as int))),
        decreases order@.len() - k,
    {
        let p = order[k];
        extend_bytes(&mut out, chunks[p].data.as_slice());
        proof {
            assert(piece_datas(sorted.take(k + 1)) =~= piece_datas(sorted.take(k as int)).push(sorted[k as int].1));
            lemma_flatten_push(piece_datas(sorted.take(k as int)), sorted[k as int].1);
        }
        k = k + 1;
    }
    assert(sorted.take(sorted.len() as int) =~= sorted);
    out
}

/// Splits `data` into chunks of `chunk_size` bytes (the last one possibly
/// shorter), indexed from 0. A chunk size of 0 is refused, and so is data
/// that needs more chunks than a `u32` index can count.
pub fn split_into_chunks(data: &[u8], chunk_size: usize) -> (r: Result<Vec<PlainChunk>, FileError>)
    ensures
        chunk_size == 0 ==> (r matches Err(e) && e == FileError::InvalidChunkSize(chunk_size)),
        chunk_size > 0 && split_pieces(data@, chunk_size as nat).len() > u32::MAX ==> (r matches Err(e) && e == FileError::TooManyChunks),
        chunk_size > 0 && split_pieces(data@, chunk_size as nat).len() <= u32::MAX ==> (r matches Ok(chunks) && is_split_of(chunk_views(chunks@), data@, chunk_size as nat)),
{
    if chunk_size == 0 {
        return Err(FileError::InvalidChunkSize(chunk_size));
    }
    let ghost size = chunk_size as nat;
    let mut chunks: Vec<PlainChunk> = Vec::new();
    let mut pos: usize = 0;
    let mut index: u32 = 0;
    assert(data@.skip(0) =~= data@);
    assert(piece_datas(chunk_views(chunks@)) =~= Seq::<Seq<u8>>::empty());
    assert(Seq::<Seq<u8>>::empty() + split_pieces(data@, size) =~= split_pieces(data@, size));
    while pos < data.len()
        invariant
            size == chunk_size as nat,
            chunk_size > 0,
            pos <= data.len(),
            chunks.len() == index,
            split_pieces(data@, size) == piece_datas(chunk_views(chunks@)) + split_pieces(data@.skip(pos as int), size),
            forall|i: int| 0 <= i < chunks.len() ==> chunks@[i].index == i,
        decreases data.len() - pos,
    {
        let remaining = data.len() - pos;
        let take = if remaining < chunk_size { remaining } else { chunk_size };
        let mut piece: Vec<u8> = Vec::new();
        extend_bytes(&mut piece, &data[pos..pos + take]);
        proof {
            let rest = data@.skip(pos as int);
            assert(data@.subrange(pos as int, pos + take) =~= rest.take(take as int));
            if rest.len() > size {
                assert(split_pieces(rest, size) == seq![rest.take(size as int)] + split_pieces(rest.skip(size as int), size));
                assert(rest.skip(size as int) =~= data@.skip(pos + take));
            } else {
                assert(rest.take(take as int) =~= rest);
                assert(data@.skip(pos + take) =~= Seq::<u8>::empty());
                assert(split_pieces(rest, size) == seq![rest]);
            }
        }
        let ghost before = chunks@;
        chunks.push(PlainChunk { index, data: piece });
        proof {
            assert(piece_datas(chunk_views(chunks@)) =~= piece_datas(chunk_views(before)).push(data@.subrange(pos as int, pos + take)));
            assert(piece_datas(chunk_views(before)) + split_pieces(data@.skip(pos as int), size) =~= piece_datas(chunk_views(chunks@)) + split_pieces(data@.skip(pos + take), size));
        }
        pos = pos + take;
        if index == u32::MAX {
            proof {
                assert(split_pieces(data@, size).len() == chunks.len() + split_pieces(data@.skip(pos as int), size).len());
            }
            return Err(FileError::TooManyChunks);
        }
        index = index + 1;
    }
    proof {
        assert(data@.skip(pos as int) =~= Seq::<u8>::empty());
        assert(split_pieces(data@, size) =~= piece_datas(chunk_views(chunks@)));
    }
    Ok(chunks)
}

} // verus!
