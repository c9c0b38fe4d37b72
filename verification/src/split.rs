//! Cutting a content into successive pieces of one chunk size.

use crate::sizing::{chunk_count, lemma_ceil_div_least};
use vstd::prelude::*;

verus! {

/// The `i`-th piece of `content` when it is cut every `chunk_size` bytes,
/// counted from zero. The last piece ends where the content ends; the one
/// piece of an empty content is empty.
pub open spec fn chunk_range(content: Seq<u8>, chunk_size: int, i: int) -> Seq<u8>
    recommends
        chunk_size > 0,
        0 <= i < chunk_count(content.len() as int, chunk_size),
{
    let start = i * chunk_size;
    let end = if start + chunk_size < content.len() {
        start + chunk_size
    } else {
        content.len() as int
    };
    content.subrange(start, end)
}

/// All pieces of `content`, in order.
pub open spec fn chunk_ranges(content: Seq<u8>, chunk_size: int) -> Seq<Seq<u8>>
    recommends
        chunk_size > 0,
{
    Seq::new(
        chunk_count(content.len() as int, chunk_size) as nat,
        |i: int| chunk_range(content, chunk_size, i),
    )
}

/// Where the `i`-th piece starts, and that `i` is below the number of
/// pieces exactly when the piece is the first or starts inside the content.
pub proof fn lemma_chunk_start(len: int, chunk_size: int, i: int)
    requires
        len >= 0,
        chunk_size > 0,
        i >= 0,
    ensures
        i * chunk_size >= 0,
        (i + 1) * chunk_size == i * chunk_size + chunk_size,
        i < chunk_count(len, chunk_size) <==> (i == 0 || i * chunk_size < len),
{
    lemma_ceil_div_least(len, chunk_size, i);
    assert((i + 1) * chunk_size == i * chunk_size + chunk_size) by (nonlinear_arith);
}

/// The length of a piece: what is left of the content where the piece
/// starts, but no more than `chunk_size`. So no piece holds more than
/// `chunk_size` bytes, every piece but the last holds exactly that many, and
/// only the piece of an empty content is empty.
pub proof fn lemma_chunk_range_len(content: Seq<u8>, chunk_size: int, i: int)
    requires
        chunk_size > 0,
        0 <= i < chunk_count(content.len() as int, chunk_size),
    ensures
        chunk_range(content, chunk_size, i).len() == if content.len() - i * chunk_size
            < chunk_size {
            content.len() - i * chunk_size
        } else {
            chunk_size
        },
        chunk_range(content, chunk_size, i).len() <= chunk_size,
        chunk_range(content, chunk_size, i).len() <= content.len(),
        content.len() > 0 ==> chunk_range(content, chunk_size, i).len() >= 1,
        i + 1 < chunk_count(content.len() as int, chunk_size) ==> chunk_range(
            content,
            chunk_size,
            i,
        ).len() == chunk_size,
{
    lemma_chunk_start(content.len() as int, chunk_size, i);
    lemma_chunk_start(content.len() as int, chunk_size, i + 1);
}

/// A chunk size that is not below the content's length leaves the content in
/// one piece.
pub proof fn lemma_single_chunk(content: Seq<u8>, chunk_size: int)
    requires
        chunk_size > 0,
        chunk_size >= content.len(),
    ensures
        chunk_count(content.len() as int, chunk_size) == 1,
        chunk_range(content, chunk_size, 0) == content,
{
    lemma_chunk_start(content.len() as int, chunk_size, 0);
    lemma_chunk_start(content.len() as int, chunk_size, 1);
}

/// The pieces, joined in index order, are the content: nothing is lost,
/// repeated or reordered by the cut.
pub proof fn lemma_ranges_reassemble(content: Seq<u8>, chunk_size: int)
    requires
        chunk_size > 0,
    ensures
        chunk_ranges(content, chunk_size).flatten() == content,
{
    let ranges = chunk_ranges(content, chunk_size);
    let count = chunk_count(content.len() as int, chunk_size);
    lemma_ceil_div_least(content.len() as int, chunk_size, count);
    lemma_joined_prefix(content, chunk_size, count);
    assert(ranges.take(count) == ranges);
    ranges.lemma_flatten_and_flatten_alt_are_equivalent();
}

/// The first `n` pieces, joined, are the content up to where the `n`-th
/// piece would start.
proof fn lemma_joined_prefix(content: Seq<u8>, chunk_size: int, n: int)
    requires
        chunk_size > 0,
        0 <= n <= chunk_count(content.len() as int, chunk_size),
    ensures
        chunk_ranges(content, chunk_size).take(n).flatten_alt() == content.subrange(
            0,
            if n * chunk_size < content.len() {
                n * chunk_size
            } else {
                content.len() as int
            },
        ),
    decreases n,
{
    let ranges = chunk_ranges(content, chunk_size);
    if n > 0 {
        lemma_joined_prefix(content, chunk_size, n - 1);
        lemma_chunk_start(content.len() as int, chunk_size, n - 1);
        // the first n pieces are the first n - 1 and the piece after them
        assert(ranges.take(n).drop_last() == ranges.take(n - 1));
    }
}

} // verus!
