//! Splitting a buffer of `size` bytes into `threads` contiguous,
//! non-overlapping chunks by ceiling division.

use vstd::prelude::*;

verus! {

/// Ceiling division: the least `q` with `a <= q * b`, for `b > 0`.
pub open spec fn ceil_div(a: nat, b: nat) -> nat
    recommends
        b > 0,
{
    ((a + b - 1) / (b as int)) as nat
}

/// A contiguous sub-range of a buffer, assigned to exactly one worker.
#[derive(Clone, Copy, Debug, PartialEq, Eq, Structural)]
pub struct Chunk {
    pub offset: usize,
    pub len: usize,
}

/// Ceiling division on machine integers.
pub fn ceil_div_usize(a: usize, b: usize) -> (q: usize)
    requires
        b > 0,
    ensures
        q == ceil_div(a as nat, b as nat),
{
    let q = a / b;
    let r = a % b;
    proof {
        vstd::arithmetic::div_mod::lemma_fundamental_div_mod(a as int, b as int);
        assert((a as int + b as int - 1) / (b as int) == if r == 0 {
            q as int
        } else {
            q as int + 1
        }) by (nonlinear_arith)
            requires
                b > 0,
                a == b * q + r,
                0 <= r < b,
        ;
    }
    if r == 0 {
        q
    } else {
        proof {
            assert(q < a) by (nonlinear_arith)
                requires
                    a == b * q + r,
                    1 <= r,
                    1 <= b,
            ;
        }
        q + 1
    }
}

/// The exact shape of the partition of `size` bytes into `threads` chunks:
/// chunk `k` starts at `k * ceil(size/threads)`, clamped to `size`, and is
/// full-sized unless the buffer runs out first (trailing chunks may be empty).
pub open spec fn partitioned(chunks: Seq<Chunk>, size: nat, threads: nat) -> bool {
    let c = ceil_div(size, threads);
    &&& chunks.len() == threads
    &&& forall|k: int|
        0 <= k < threads ==> {
            let off = if k * c <= size {
                (k * c) as nat
            } else {
                size
            };
            &&& (#[trigger] chunks[k]).offset == off
            &&& chunks[k].len == if off + c <= size {
                c
            } else {
                (size - off) as nat
            }
        }
}

/// Split `size` bytes into exactly `threads` contiguous chunks of
/// `ceil(size/threads)` bytes each, except that once the buffer runs out the
/// remaining chunks shrink (at most one partial chunk, then empty ones).
pub fn partition(size: usize, threads: usize) -> (chunks: Vec<Chunk>)
    requires
        threads >= 1,
    ensures
        partitioned(chunks@, size as nat, threads as nat),
        chunks@.len() == threads,
{
    let c = ceil_div_usize(size, threads);
    let mut chunks: Vec<Chunk> = Vec::new();
    let mut offset: usize = 0;
    let ghost cg = ceil_div(size as nat, threads as nat);
    for k in 0..threads
        invariant
            c == cg,
            chunks@.len() == k,
            offset == if k * cg <= size as nat {
                (k * cg) as int
            } else {
                size as int
            },
            offset <= size,
            forall|j: int|
                0 <= j < k ==> {
                    let off = if j * cg <= size as nat {
                        (j * cg) as nat
                    } else {
                        size as nat
                    };
                    &&& (#[trigger] chunks@[j]).offset == off
                    &&& chunks@[j].len == if off + cg <= size as nat {
                        cg
                    } else {
                        (size - off) as nat
                    }
                },
    {
        let len = if size - offset >= c {
            c
        } else {
            size - offset
        };
        chunks.push(Chunk { offset, len });
        proof {
            assert((k + 1) * cg == k * cg + cg) by (nonlinear_arith);
            assert(k * cg <= (k + 1) * cg) by (nonlinear_arith);
        }
        offset = offset + len;
    }
    chunks
}

/// Ceiling division covers what it divides: `size <= threads * ceil(size/threads)`.
pub proof fn lemma_ceil_div_covers(size: nat, threads: nat)
    requires
        threads >= 1,
    ensures
        size <= threads * ceil_div(size, threads),
{
    let c = ceil_div(size, threads);
    vstd::arithmetic::div_mod::lemma_fundamental_div_mod(size + threads - 1, threads as int);
    let r = (size + threads - 1) % (threads as int);
    assert(size + threads - 1 == threads * c + r);
    assert(size <= threads * c);
}

/// A partition is a chain: the first chunk starts at zero, each chunk ends
/// where the next begins, every chunk lies inside the buffer, and the last
/// chunk ends exactly at `size`.
pub proof fn lemma_partition_chain(chunks: Seq<Chunk>, size: nat, threads: nat)
    requires
        threads >= 1,
        partitioned(chunks, size, threads),
    ensures
        chunks[0].offset == 0,
        forall|k: int|
            0 <= k < threads ==> (#[trigger] chunks[k]).offset + chunks[k].len <= size,
        forall|k: int|
            0 <= k < threads - 1 ==> (#[trigger] chunks[k + 1]).offset == chunks[k].offset
                + chunks[k].len,
        chunks[threads - 1].offset + chunks[threads - 1].len == size,
{
    let c = ceil_div(size, threads);
    assert(chunks[0].offset == 0);
    assert forall|k: int| 0 <= k < threads - 1 implies (#[trigger] chunks[k + 1]).offset
        == chunks[k].offset + chunks[k].len by {
        assert((k + 1) * c == k * c + c) by (nonlinear_arith);
    }
    lemma_ceil_div_covers(size, threads);
    assert(threads * c == (threads - 1) * c + c) by (nonlinear_arith);
    assert(chunks[threads - 1].offset + chunks[threads - 1].len == size);
}

/// The total number of bytes covered by a sequence of chunks.
pub open spec fn sum_lens(chunks: Seq<Chunk>) -> nat
    decreases chunks.len(),
{
    if chunks.len() == 0 {
        0
    } else {
        (sum_lens(chunks.drop_last()) + chunks.last().len) as nat
    }
}

proof fn lemma_sum_take(chunks: Seq<Chunk>, k: int)
    requires
        1 <= chunks.len(),
        0 <= k <= chunks.len(),
        chunks[0].offset == 0,
        forall|j: int|
            0 <= j < chunks.len() - 1 ==> (#[trigger] chunks[j + 1]).offset == chunks[j].offset
                + chunks[j].len,
    ensures
        k < chunks.len() ==> sum_lens(chunks.take(k)) == chunks[k].offset,
        k == chunks.len() ==> sum_lens(chunks.take(k)) == chunks[k - 1].offset + chunks[k - 1].len,
    decreases k,
{
    if k == 0 {
        assert(chunks.take(0) =~= Seq::<Chunk>::empty());
    } else {
        lemma_sum_take(chunks, k - 1);
        assert(chunks.take(k).drop_last() =~= chunks.take(k - 1));
        assert(chunks.take(k).last() == chunks[k - 1]);
        assert(sum_lens(chunks.take(k)) == sum_lens(chunks.take(k - 1)) + chunks[k - 1].len);
        if k < chunks.len() {
            assert(chunks[(k - 1) + 1].offset == chunks[k - 1].offset + chunks[k - 1].len);
        }
    }
}

/// The partition produces exactly `threads` chunks, their lengths sum
/// exactly to `size`, and no chunk is longer than `ceil(size/threads)`.
pub proof fn lemma_partition_sums_to_size(chunks: Seq<Chunk>, size: nat, threads: nat)
    requires
        threads >= 1,
        partitioned(chunks, size, threads),
    ensures
        chunks.len() == threads,
        sum_lens(chunks) == size,
        forall|k: int| 0 <= k < threads ==> (#[trigger] chunks[k]).len <= ceil_div(size, threads),
{
    lemma_partition_chain(chunks, size, threads);
    lemma_sum_take(chunks, threads as int);
    assert(chunks.take(threads as int) =~= chunks);
}

/// Away from the degenerate sizes, only the last chunk can be undersized:
/// whenever `(threads - 1) * ceil(size/threads) <= size`, every chunk but the
/// last holds exactly `ceil(size/threads)` bytes. For smaller sizes — five
/// bytes over four threads, say — more than one trailing chunk falls short.
pub proof fn lemma_only_last_chunk_short(chunks: Seq<Chunk>, size: nat, threads: nat)
    requires
        threads >= 1,
        partitioned(chunks, size, threads),
        (threads - 1) * ceil_div(size, threads) <= size,
    ensures
        forall|k: int|
            0 <= k < threads - 1 ==> (#[trigger] chunks[k]).len == ceil_div(size, threads),
{
    let c = ceil_div(size, threads);
    assert forall|k: int| 0 <= k < threads - 1 implies (#[trigger] chunks[k]).len == c by {
        assert((k + 1) * c <= (threads - 1) * c) by (nonlinear_arith)
            requires
                k + 1 <= threads - 1,
                c >= 0,
        ;
        assert((k + 1) * c == k * c + c) by (nonlinear_arith);
    }
}

/// Byte position `pos` lies inside chunk `k`.
pub open spec fn in_chunk(chunks: Seq<Chunk>, k: int, pos: int) -> bool {
    chunks[k].offset <= pos < chunks[k].offset + chunks[k].len
}

/// Byte position `pos` lies inside one of the first `threads` chunks.
pub open spec fn covered_by(chunks: Seq<Chunk>, threads: nat, pos: int) -> bool {
    exists|k: int| 0 <= k < threads && #[trigger] in_chunk(chunks, k, pos)
}

/// Disjointness and coverage: ordered by offset, the chunks of a partition
/// have zero overlap and zero gap over the buffer — every earlier chunk ends
/// no later than a later chunk begins, and every byte position below `size`
/// lies inside some chunk.
pub proof fn lemma_partition_disjoint_covers(chunks: Seq<Chunk>, size: nat, threads: nat)
    requires
        threads >= 1,
        partitioned(chunks, size, threads),
    ensures
        forall|j: int, k: int|
            0 <= j < k < threads ==> (#[trigger] chunks[j]).offset + chunks[j].len <= (
            #[trigger] chunks[k]).offset,
        forall|pos: int| 0 <= pos < size ==> #[trigger] covered_by(chunks, threads, pos),
{
    let c = ceil_div(size, threads);
    assert forall|j: int, k: int| 0 <= j < k < threads implies (#[trigger] chunks[j]).offset
        + chunks[j].len <= (#[trigger] chunks[k]).offset by {
        assert((j + 1) * c == j * c + c) by (nonlinear_arith);
        assert((j + 1) * c <= k * c) by (nonlinear_arith)
            requires
                j + 1 <= k,
                c >= 0,
        ;
    }
    if size > 0 {
        lemma_ceil_div_covers(size, threads);
        assert(c >= 1) by {
            if c == 0 {
                assert(threads * c == 0) by (nonlinear_arith)
                    requires
                        c == 0,
                ;
            }
        }
        assert forall|pos: int| 0 <= pos < size implies #[trigger] covered_by(
            chunks,
            threads,
            pos,
        ) by {
            let k = pos / (c as int);
            vstd::arithmetic::div_mod::lemma_fundamental_div_mod(pos, c as int);
            assert(k * c <= pos < k * c + c);
            assert(k < threads) by {
                if k >= threads {
                    assert(threads * c <= k * c) by (nonlinear_arith)
                        requires
                            threads <= k,
                            c >= 0,
                    ;
                }
            }
            assert(0 <= k < threads && in_chunk(chunks, k, pos));
        }
    }
}

} // verus!
