//! The two timed bulk operations: filling a buffer with a sentinel byte and
//! copying one buffer into another of equal length — each both as one whole
//! pass (the single-thread path) and chunk by chunk over a partition (the
//! shape of the multi-thread path), with identical results.

use vstd::prelude::*;
use crate::chunks::{lemma_partition_chain, partition};

verus! {

/// Every one of the first `len` bytes of `s` is `value`, and `s` has `len` bytes.
pub open spec fn is_filled(s: Seq<u8>, len: nat, value: u8) -> bool {
    &&& s.len() == len
    &&& forall|i: int| 0 <= i < len ==> s[i] == value
}

/// Overwrite `len` bytes of `buf` starting at `offset` with `value`,
/// leaving every other byte unchanged.
pub fn fill_range(buf: &mut Vec<u8>, offset: usize, len: usize, value: u8)
    requires
        offset + len <= old(buf)@.len(),
    ensures
        final(buf)@.len() == old(buf)@.len(),
        forall|i: int| offset <= i < offset + len ==> final(buf)@[i] == value,
        forall|i: int|
            0 <= i < old(buf)@.len() && !(offset <= i < offset + len) ==> final(buf)@[i] == old(buf)@[i],
{
    let n = buf.len();  // also bounds offset + len within usize
    for i in offset..offset + len
        invariant
            offset + len <= buf@.len(),
            buf@.len() == old(buf)@.len(),
            forall|j: int| offset <= j < i ==> buf@[j] == value,
            forall|j: int|
                0 <= j < old(buf)@.len() && !(offset <= j < i) ==> buf@[j] == old(buf)@[j],
    {
        buf[i] = value;
    }
}

/// Overwrite the whole of `buf` with `value`: the single-thread fill.
pub fn fill_buffer(buf: &mut Vec<u8>, value: u8)
    ensures
        is_filled(final(buf)@, old(buf)@.len(), value),
{
    let n = buf.len();
    fill_range(buf, 0, n, value);
}

/// Copy `len` bytes at `offset` from `src` into the same positions of `dst`,
/// leaving every other byte of `dst` unchanged.
pub fn copy_range(dst: &mut Vec<u8>, src: &Vec<u8>, offset: usize, len: usize)
    requires
        offset + len <= old(dst)@.len(),
        offset + len <= src@.len(),
    ensures
        final(dst)@.len() == old(dst)@.len(),
        forall|i: int| offset <= i < offset + len ==> final(dst)@[i] == src@[i],
        forall|i: int|
            0 <= i < old(dst)@.len() && !(offset <= i < offset + len) ==> final(dst)@[i] == old(dst)@[i],
{
    let n = dst.len();  // also bounds offset + len within usize
    for i in offset..offset + len
        invariant
            offset + len <= dst@.len(),
            offset + len <= src@.len(),
            dst@.len() == old(dst)@.len(),
            forall|j: int| offset <= j < i ==> dst@[j] == src@[j],
            forall|j: int|
                0 <= j < old(dst)@.len() && !(offset <= j < i) ==> dst@[j] == old(dst)@[j],
    {
        let b = src[i];
        dst[i] = b;
    }
}

/// Copy the whole of `src` into `dst`: the single-thread copy.
pub fn copy_buffer(dst: &mut Vec<u8>, src: &Vec<u8>)
    requires
        old(dst)@.len() == src@.len(),
    ensures
        final(dst)@ == src@,
{
    let n = src.len();
    copy_range(dst, src, 0, n);
    assert(dst@ =~= src@);
}

/// Overwrite the whole of `buf` with `value`, chunk by chunk over the
/// partition for `threads` workers: the shape of the multi-thread fill.
/// The chunks are disjoint, so the workers' order does not matter; this
/// verified pass applies them in offset order.
pub fn fill_chunked(buf: &mut Vec<u8>, threads: usize, value: u8)
    requires
        threads >= 1,
    ensures
        is_filled(final(buf)@, old(buf)@.len(), value),
{
    let n = buf.len();
    let chunks = partition(n, threads);
    proof {
        lemma_partition_chain(chunks@, n as nat, threads as nat);
    }
    for k in 0..threads
        invariant
            buf@.len() == n == old(buf)@.len(),
            chunks@.len() == threads,
            forall|j: int|
                0 <= j < threads ==> (#[trigger] chunks@[j]).offset + chunks@[j].len <= n,
            forall|j: int|
                0 <= j < threads - 1 ==> (#[trigger] chunks@[j + 1]).offset == chunks@[j].offset
                    + chunks@[j].len,
            chunks@[0].offset == 0,
            chunks@[threads - 1].offset + chunks@[threads - 1].len == n,
            forall|i: int|
                0 <= i < (if k < threads {
                    chunks@[k as int].offset as int
                } else {
                    n as int
                }) ==> buf@[i] == value,
    {
        let c = chunks[k];
        fill_range(buf, c.offset, c.len, value);
        assert(k + 1 < threads ==> chunks@[k + 1].offset == chunks@[k as int].offset
            + chunks@[k as int].len);
    }
}

/// Copy the whole of `src` into `dst`, chunk by chunk over the partition for
/// `threads` workers: the shape of the multi-thread copy. Source and
/// destination chunks are aligned, of equal offset and length.
pub fn copy_chunked(dst: &mut Vec<u8>, src: &Vec<u8>, threads: usize)
    requires
        threads >= 1,
        old(dst)@.len() == src@.len(),
    ensures
        final(dst)@ == src@,
{
    let n = dst.len();
    let chunks = partition(n, threads);
    proof {
        lemma_partition_chain(chunks@, n as nat, threads as nat);
    }
    for k in 0..threads
        invariant
            dst@.len() == n == old(dst)@.len(),
            n == src@.len(),
            chunks@.len() == threads,
            forall|j: int|
                0 <= j < threads ==> (#[trigger] chunks@[j]).offset + chunks@[j].len <= n,
            forall|j: int|
                0 <= j < threads - 1 ==> (#[trigger] chunks@[j + 1]).offset == chunks@[j].offset
                    + chunks@[j].len,
            chunks@[0].offset == 0,
            chunks@[threads - 1].offset + chunks@[threads - 1].len == n,
            forall|i: int|
                0 <= i < (if k < threads {
                    chunks@[k as int].offset as int
                } else {
                    n as int
                }) ==> dst@[i] == src@[i],
    {
        let c = chunks[k];
        copy_range(dst, src, c.offset, c.len);
        assert(k + 1 < threads ==> chunks@[k + 1].offset == chunks@[k as int].offset
            + chunks@[k as int].len);
    }
    assert(dst@ =~= src@);
}

/// One thread or many, the filled buffer is the same: any two buffers of the
/// same length filled with the same sentinel are byte-identical.
pub proof fn lemma_fill_thread_count_equiv(single: Seq<u8>, chunked: Seq<u8>, len: nat, value: u8)
    requires
        is_filled(single, len, value),
        is_filled(chunked, len, value),
    ensures
        single == chunked,
{
    assert(single =~= chunked);
}

/// One thread or many, the copied buffer is the same: any two destinations
/// that each equal the source are byte-identical.
pub proof fn lemma_copy_thread_count_equiv(single: Seq<u8>, chunked: Seq<u8>, src: Seq<u8>)
    requires
        single == src,
        chunked == src,
    ensures
        single == chunked,
{
}

} // verus!
