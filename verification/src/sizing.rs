//! Adaptive chunk sizing: how wide the pieces of an asset should be.

use vstd::prelude::*;

verus! {

/// Files below this many bytes are cut into `SMALL_CHUNK_SIZE` pieces.
pub const SMALL_FILE_THRESHOLD: u64 = 1024 * 1024;

/// Files below this many bytes (and not small) are cut into `MEDIUM_CHUNK_SIZE` pieces.
pub const LARGE_FILE_THRESHOLD: u64 = 10 * 1024 * 1024;

/// Base chunk size of a small file.
pub const SMALL_CHUNK_SIZE: u64 = 64 * 1024;

/// Base chunk size of a medium file.
pub const MEDIUM_CHUNK_SIZE: u64 = 256 * 1024;

/// Base chunk size of a large file.
pub const LARGE_CHUNK_SIZE: u64 = 1024 * 1024;

/// No asset is planned to be cut into more chunks than this.
pub const MAX_CHUNKS: u64 = 100;

/// No chunk size below this is ever chosen.
pub const MIN_CHUNK_SIZE: u64 = 1024;

/// `n / d`, rounded up.
pub open spec fn ceil_div(n: int, d: int) -> int
    recommends
        d > 0,
{
    (n + d - 1) / d
}

/// The chunk size that the size tier of a file suggests.
pub open spec fn base_chunk_size(file_size: int) -> int {
    if file_size < SMALL_FILE_THRESHOLD {
        SMALL_CHUNK_SIZE as int
    } else if file_size < LARGE_FILE_THRESHOLD {
        MEDIUM_CHUNK_SIZE as int
    } else {
        LARGE_CHUNK_SIZE as int
    }
}

/// The number of chunks a file is planned to be cut into: what the base
/// chunk size implies, raised to `min_chunks`, capped at `MAX_CHUNKS`, and
/// never less than one (so a `min_chunks` of zero counts as one).
pub open spec fn planned_chunks(file_size: int, min_chunks: int) -> int {
    let by_tier = ceil_div(file_size, base_chunk_size(file_size));
    let raised = if by_tier < min_chunks {
        min_chunks
    } else {
        by_tier
    };
    if raised > MAX_CHUNKS {
        MAX_CHUNKS as int
    } else if raised < 1 {
        1
    } else {
        raised
    }
}

/// The chunk size chosen for a file: the file's size divided evenly over the
/// planned number of chunks, rounded up, and floored at `MIN_CHUNK_SIZE`.
pub open spec fn chunk_size_for(file_size: int, min_chunks: int) -> int {
    let even = ceil_div(file_size, planned_chunks(file_size, min_chunks));
    if even < MIN_CHUNK_SIZE {
        MIN_CHUNK_SIZE as int
    } else {
        even
    }
}

/// The number of chunks that `len` bytes give when cut into successive pieces
/// of `chunk_size` bytes, the last of which may be shorter. Nothing at all
/// still gives one chunk, an empty one.
pub open spec fn chunk_count(len: int, chunk_size: int) -> int
    recommends
        len >= 0,
        chunk_size > 0,
{
    if len == 0 {
        1
    } else {
        ceil_div(len, chunk_size)
    }
}

/// `ceil_div(n, d)` is the least `k` with `n <= k * d`.
pub proof fn lemma_ceil_div_least(n: int, d: int, k: int)
    requires
        d > 0,
    ensures
        ceil_div(n, d) <= k <==> n <= k * d,
{
    let q = ceil_div(n, d);
    assert(n + d - 1 == d * q + (n + d - 1) % d && 0 <= (n + d - 1) % d < d) by {
        vstd::arithmetic::div_mod::lemma_fundamental_div_mod(n + d - 1, d);
    }
    if q <= k {
        assert(q * d <= k * d) by (nonlinear_arith)
            requires
                q <= k,
                d > 0,
        ;
    } else {
        assert((k + 1) * d <= q * d) by (nonlinear_arith)
            requires
                k + 1 <= q,
                d > 0,
        ;
        assert((k + 1) * d == k * d + d) by (nonlinear_arith);
    }
}

/// Between one and `MAX_CHUNKS` chunks are planned, and no fewer than
/// `min_chunks` unless that is above the cap.
pub proof fn lemma_planned_chunks_bounds(file_size: int, min_chunks: int)
    ensures
        1 <= planned_chunks(file_size, min_chunks) <= MAX_CHUNKS,
        planned_chunks(file_size, min_chunks) >= min_chunks || planned_chunks(
            file_size,
            min_chunks,
        ) == MAX_CHUNKS,
{
}

/// For every file size and every `min_chunks` of at least one, the chosen
/// chunk size is at least `MIN_CHUNK_SIZE` and cuts the file into at most
/// `MAX_CHUNKS` chunks. An empty file gives exactly one chunk, of the least
/// chunk size. Any other file is cut into at least `min_chunks` chunks (or
/// `MAX_CHUNKS`, if that is less) exactly when it is large enough to put
/// something into that many chunks of `MIN_CHUNK_SIZE` bytes.
pub proof fn lemma_chunk_size_bounds(file_size: int, min_chunks: int)
    requires
        file_size >= 0,
        min_chunks >= 1,
    ensures
        chunk_size_for(file_size, min_chunks) >= MIN_CHUNK_SIZE,
        1 <= chunk_count(file_size, chunk_size_for(file_size, min_chunks)) <= MAX_CHUNKS,
        file_size == 0 ==> chunk_size_for(file_size, min_chunks) == MIN_CHUNK_SIZE && chunk_count(
            file_size,
            chunk_size_for(file_size, min_chunks),
        ) == 1,
        file_size > 0 ==> ({
            let least = if min_chunks < MAX_CHUNKS {
                min_chunks
            } else {
                MAX_CHUNKS as int
            };
            chunk_count(file_size, chunk_size_for(file_size, min_chunks)) >= least <==> file_size
                > MIN_CHUNK_SIZE * (least - 1)
        }),
{
    let n = planned_chunks(file_size, min_chunks);
    let even = ceil_div(file_size, n);
    let size = chunk_size_for(file_size, min_chunks);
    let least = if min_chunks < MAX_CHUNKS {
        min_chunks
    } else {
        MAX_CHUNKS as int
    };
    // the planned chunks of the even size hold the file, so 100 of the chosen size do
    lemma_ceil_div_least(file_size, n, even);
    assert(even * n <= 100 * size) by (nonlinear_arith)
        requires
            0 <= even <= size,
            1 <= n <= 100,
    ;
    lemma_ceil_div_least(file_size, size, 100);
    // fewer than `least` chunks means that `least - 1` chunks hold the file
    lemma_ceil_div_least(file_size, size, least - 1);
    if even > MIN_CHUNK_SIZE {
        // one chunk fewer of one byte less would not hold the file
        lemma_ceil_div_least(file_size, n, even - 1);
        assert((even - 1) * n >= (least - 1) * even && (even - 1) * n >= 1024 * (least - 1))
            by (nonlinear_arith)
            requires
                1 <= least <= n <= 100,
                even > 1024,
        ;
    }
}

/// Where the even share of the planned chunks is not below `MIN_CHUNK_SIZE`,
/// the chosen chunk size cuts the file into exactly the planned number of
/// chunks.
pub proof fn lemma_even_split_is_exact(file_size: int, min_chunks: int)
    requires
        file_size >= 0,
        ceil_div(file_size, planned_chunks(file_size, min_chunks)) >= MIN_CHUNK_SIZE,
    ensures
        chunk_count(file_size, chunk_size_for(file_size, min_chunks)) == planned_chunks(
            file_size,
            min_chunks,
        ),
{
    let n = planned_chunks(file_size, min_chunks);
    let even = ceil_div(file_size, n);
    lemma_ceil_div_least(file_size, n, even);
    lemma_ceil_div_least(file_size, n, even - 1);
    lemma_ceil_div_least(file_size, even, n);
    lemma_ceil_div_least(file_size, even, n - 1);
    assert((even - 1) * n >= (n - 1) * even) by (nonlinear_arith)
        requires
            1 <= n <= 100,
            even >= 1024,
    ;
}

fn ceil_div_u64(n: u64, d: u64) -> (q: u64)
    requires
        d > 0,
    ensures
        q == ceil_div(n as int, d as int),
{
    let whole: u64 = n / d;
    let rest: u64 = n % d;
    proof {
        let ni = n as int;
        let di = d as int;
        vstd::arithmetic::div_mod::lemma_fundamental_div_mod(ni, di);
        if rest == 0 {
            // n == whole * d, so whole is the least k with n <= k * d
            lemma_ceil_div_least(ni, di, whole as int);
            lemma_ceil_div_least(ni, di, whole as int - 1);
            assert((whole as int - 1) * di == whole as int * di - di) by (nonlinear_arith);
        } else {
            lemma_ceil_div_least(ni, di, whole as int + 1);
            lemma_ceil_div_least(ni, di, whole as int);
            assert((whole as int + 1) * di == whole as int * di + di) by (nonlinear_arith);
            assert(whole as int * 2 <= whole as int * di) by (nonlinear_arith)
                requires
                    di >= 2,
                    whole >= 0,
            ;
        }
    }
    if rest == 0 {
        whole
    } else {
        whole + 1
    }
}

/// The chosen chunk size as a 64-bit number, for every file size.
pub(crate) fn wide_chunk_size(file_size: u64, min_chunks: usize) -> (chunk_size: u64)
    ensures
        chunk_size == chunk_size_for(file_size as int, min_chunks as int),
        chunk_size >= MIN_CHUNK_SIZE,
        chunk_size <= file_size || chunk_size == MIN_CHUNK_SIZE,
{
    let base: u64 = if file_size < SMALL_FILE_THRESHOLD {
        SMALL_CHUNK_SIZE
    } else if file_size < LARGE_FILE_THRESHOLD {
        MEDIUM_CHUNK_SIZE
    } else {
        LARGE_CHUNK_SIZE
    };
    let mut num_chunks: u64 = ceil_div_u64(file_size, base);
    if num_chunks < min_chunks as u64 {
        num_chunks = min_chunks as u64;
    }
    if num_chunks > MAX_CHUNKS {
        num_chunks = MAX_CHUNKS;
    }
    if num_chunks < 1 {
        num_chunks = 1;
    }
    let even: u64 = ceil_div_u64(file_size, num_chunks);
    proof {
        // one chunk would hold the whole file, so no share is larger
        lemma_ceil_div_least(file_size as int, num_chunks as int, file_size as int);
        assert(file_size as int <= file_size as int * num_chunks as int) by (nonlinear_arith)
            requires
                num_chunks >= 1,
                file_size >= 0,
        ;
    }
    if even < MIN_CHUNK_SIZE {
        MIN_CHUNK_SIZE
    } else {
        even
    }
}

/// The chunk size as a length on this machine: `chunk_size` itself, or the
/// largest length where `chunk_size` is beyond it. A content in memory is no
/// longer than the largest length, so both cut it in the same way.
pub open spec fn as_length(chunk_size: int) -> int {
    if chunk_size > usize::MAX {
        usize::MAX as int
    } else {
        chunk_size
    }
}

/// Chooses the chunk size for a file of `file_size` bytes that should be cut
/// into at least `min_chunks` chunks. A `min_chunks` of zero counts as one.
///
/// The result is `chunk_size_for(file_size, min_chunks)` wherever that is a
/// length on this machine, as it is for every file size that is one. With
/// `min_chunks` of at least one it then cuts the file into at most
/// `MAX_CHUNKS` chunks: one for an empty file, and for any other at least
/// `min_chunks` (or `MAX_CHUNKS`, if that is less) exactly when the file is
/// large enough to put something into that many chunks of `MIN_CHUNK_SIZE`
/// bytes.
pub fn compute_chunk_size(file_size: u64, min_chunks: usize) -> (chunk_size: usize)
    ensures
        chunk_size == as_length(chunk_size_for(file_size as int, min_chunks as int)),
        chunk_size >= MIN_CHUNK_SIZE,
        file_size <= usize::MAX ==> chunk_size == chunk_size_for(
            file_size as int,
            min_chunks as int,
        ),
        min_chunks >= 1 && file_size <= usize::MAX ==> 1 <= chunk_count(
            file_size as int,
            chunk_size as int,
        ) <= MAX_CHUNKS,
        file_size == 0 ==> chunk_size == MIN_CHUNK_SIZE && chunk_count(
            file_size as int,
            chunk_size as int,
        ) == 1,
        min_chunks >= 1 && 0 < file_size <= usize::MAX ==> ({
            let least = if min_chunks < MAX_CHUNKS {
                min_chunks as int
            } else {
                MAX_CHUNKS as int
            };
            chunk_count(file_size as int, chunk_size as int) >= least <==> file_size
                > MIN_CHUNK_SIZE * (least - 1)
        }),
{
    let wide: u64 = wide_chunk_size(file_size, min_chunks);
    proof {
        if min_chunks >= 1 {
            lemma_chunk_size_bounds(file_size as int, min_chunks as int);
        }
    }
    if wide > usize::MAX as u64 {
        usize::MAX
    } else {
        wide as usize
    }
}

} // verus!
