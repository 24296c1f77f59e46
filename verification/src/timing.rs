//! Combining the coordinator's post-release instant and each worker's own
//! start/end instants into one elapsed duration, and turning that duration
//! into a throughput. Instants are plain nanosecond counts on one monotonic
//! clock; the clock itself lives with the unverified driver.

use vstd::prelude::*;

verus! {

/// The earliest of the coordinator's instant and all workers' start instants:
/// the moment the first party was allowed to begin work.
pub open spec fn reference_start(t_coord: u64, times: Seq<(u64, u64)>) -> u64
    decreases times.len(),
{
    if times.len() == 0 {
        t_coord
    } else {
        let rest = reference_start(t_coord, times.drop_last());
        if times.last().0 < rest {
            times.last().0
        } else {
            rest
        }
    }
}

/// The latest of all workers' end instants: the moment the last party
/// finished its work.
pub open spec fn latest_end(times: Seq<(u64, u64)>) -> u64
    decreases times.len(),
{
    if times.len() == 0 {
        0
    } else {
        let rest = latest_end(times.drop_last());
        if times.last().1 > rest {
            times.last().1
        } else {
            rest
        }
    }
}

/// The reference start is no later than any worker's start.
proof fn lemma_reference_start_le(t_coord: u64, times: Seq<(u64, u64)>, i: int)
    requires
        0 <= i < times.len(),
    ensures
        reference_start(t_coord, times) <= times[i].0,
    decreases times.len(),
{
    if i < times.len() - 1 {
        lemma_reference_start_le(t_coord, times.drop_last(), i);
    }
}

/// The latest end is no earlier than any worker's end.
proof fn lemma_latest_end_ge(times: Seq<(u64, u64)>, i: int)
    requires
        0 <= i < times.len(),
    ensures
        latest_end(times) >= times[i].1,
    decreases times.len(),
{
    if i < times.len() - 1 {
        lemma_latest_end_ge(times.drop_last(), i);
    }
}

/// One trial's elapsed duration: the span from the first party allowed to
/// begin (the earliest of the coordinator's instant and all worker starts) to
/// the last party finished (the latest worker end). Each worker's end must
/// not precede its own start — the instants come from one monotonic clock.
pub fn trial_elapsed(t_coord: u64, times: &Vec<(u64, u64)>) -> (elapsed: u64)
    requires
        times@.len() >= 1,
        forall|i: int| 0 <= i < times@.len() ==> (#[trigger] times@[i]).0 <= times@[i].1,
    ensures
        elapsed == latest_end(times@) - reference_start(t_coord, times@),
{
    let mut start: u64 = t_coord;
    let mut end: u64 = 0;
    let n = times.len();
    for k in 0..n
        invariant
            n == times@.len(),
            start == reference_start(t_coord, times@.take(k as int)),
            end == latest_end(times@.take(k as int)),
    {
        let (t_start, t_end) = times[k];
        if t_start < start {
            start = t_start;
        }
        if t_end > end {
            end = t_end;
        }
        proof {
            assert(times@.take(k as int + 1).drop_last() =~= times@.take(k as int));
            assert(times@.take(k as int + 1).last() == times@[k as int]);
        }
    }
    proof {
        assert(times@.take(n as int) =~= times@);
        lemma_reference_start_le(t_coord, times@, 0);
        lemma_latest_end_ge(times@, 0);
    }
    end - start
}

/// The throughput of one trial, in thousandths of a byte per second:
/// `size_bytes * 10^12 / elapsed_nanos`, rounded down. Degenerate timings are
/// not an error: a zero elapsed duration (or a rate beyond what a count can
/// hold) yields `None`, and the caller decides how to report it.
pub fn throughput_millibytes_per_sec(size_bytes: u64, elapsed_nanos: u64) -> (r: Option<u64>)
    ensures
        elapsed_nanos == 0 ==> r is None,
        elapsed_nanos > 0 ==> {
            let v = size_bytes * 1_000_000_000_000 / (elapsed_nanos as int);
            if v <= u64::MAX {
                r == Some(v as u64)
            } else {
                r is None
            }
        },
{
    if elapsed_nanos == 0 {
        return None;
    }
    proof {
        assert((size_bytes as int) * 1_000_000_000_000 <= 0xffff_ffff_ffff_ffff
            * 1_000_000_000_000) by (nonlinear_arith)
            requires
                size_bytes <= 0xffff_ffff_ffff_ffff,
        ;
    }
    let wide: u128 = (size_bytes as u128) * 1_000_000_000_000u128;
    let q: u128 = wide / (elapsed_nanos as u128);
    if q <= u64::MAX as u128 {
        Some(q as u64)
    } else {
        None
    }
}

} // verus!
