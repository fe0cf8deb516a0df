//! Transfer rates and the bounded history of throughput samples.

use crate::record::{
    RuntimeView, TorrentRuntime, HEARTBEAT_MAX_SAMPLES, HEARTBEAT_SAMPLE_INTERVAL_MS,
};
use vstd::prelude::*;

verus! {

/// `a - b`, or 0 where `b` is the larger.
pub open spec fn minus(a: u64, b: u64) -> u64 {
    if a >= b {
        (a - b) as u64
    } else {
        0
    }
}

/// The rate in bytes per second at which `delta` bytes moved in
/// `elapsed_ms` milliseconds, rounded down and capped at `u64::MAX`; 0
/// where no time has passed.
pub open spec fn rate_per_sec(delta: u64, elapsed_ms: u64) -> u64 {
    if elapsed_ms == 0 {
        0
    } else if delta * 1000 / (elapsed_ms as int) > u64::MAX {
        u64::MAX
    } else {
        (delta * 1000 / (elapsed_ms as int)) as u64
    }
}

/// Computes a transfer rate in bytes per second.
pub fn bytes_per_second(delta: u64, elapsed_ms: u64) -> (r: u64)
    ensures
        r == rate_per_sec(delta, elapsed_ms),
{
    if elapsed_ms == 0 {
        return 0;
    }
    let scaled: u128 = delta as u128 * 1000;
    let rate: u128 = scaled / (elapsed_ms as u128);
    if rate > u64::MAX as u128 {
        u64::MAX
    } else {
        rate as u64
    }
}

/// A bounded history after one more sample: the sample is appended, and
/// the oldest sample leaves where the history would grow beyond `cap`.
pub open spec fn ring_push(ring: Seq<u64>, sample: u64, cap: nat) -> Seq<u64> {
    if ring.len() + 1 > cap {
        ring.push(sample).drop_first()
    } else {
        ring.push(sample)
    }
}

/// A history that is within its bound stays within it: the new sample comes
/// last, the samples before it keep their order, and only the oldest one can
/// leave.
pub proof fn lemma_ring_push_bounded(ring: Seq<u64>, sample: u64, cap: nat)
    requires
        ring.len() <= cap,
        cap > 0,
    ensures
        ring_push(ring, sample, cap).len() <= cap,
        ring_push(ring, sample, cap).last() == sample,
        ring.len() < cap ==> ring_push(ring, sample, cap) == ring.push(sample),
        ring.len() == cap ==> ring_push(ring, sample, cap) == ring.skip(1).push(sample),
{
}

/// Appends a sample to a bounded history.
pub fn push_sample(ring: &mut Vec<u64>, sample: u64)
    ensures
        final(ring)@ == ring_push(old(ring)@, sample, HEARTBEAT_MAX_SAMPLES as nat),
        old(ring).len() <= HEARTBEAT_MAX_SAMPLES ==> final(ring).len() <= HEARTBEAT_MAX_SAMPLES,
{
    ring.push(sample);
    if ring.len() > HEARTBEAT_MAX_SAMPLES {
        ring.remove(0);
    }
}

/// A runtime after the heartbeat looked at it at time `now`: where at
/// least [`HEARTBEAT_SAMPLE_INTERVAL_MS`] have passed since the last sample,
/// a new sample is taken, which is the download rate since then for a
/// running torrent and 0 for one that is not running.
pub open spec fn heartbeat_step(rt: RuntimeView, now: u64) -> RuntimeView {
    let elapsed = minus(now, rt.heartbeat_last_sample_ms);
    if elapsed < HEARTBEAT_SAMPLE_INTERVAL_MS {
        rt
    } else if rt.running {
        RuntimeView {
            heartbeat_samples: ring_push(
                rt.heartbeat_samples,
                rate_per_sec(minus(rt.downloaded_bytes, rt.heartbeat_last_bytes), elapsed),
                HEARTBEAT_MAX_SAMPLES as nat,
            ),
            heartbeat_last_sample_ms: now,
            heartbeat_last_bytes: rt.downloaded_bytes,
            ..rt
        }
    } else {
        RuntimeView {
            heartbeat_samples: ring_push(rt.heartbeat_samples, 0, HEARTBEAT_MAX_SAMPLES as nat),
            heartbeat_last_sample_ms: now,
            ..rt
        }
    }
}

/// Takes a heartbeat sample of a torrent if one is due at time `now`.
pub fn heartbeat_sample(rt: &mut TorrentRuntime, now: u64)
    ensures
        final(rt)@ == heartbeat_step(old(rt)@, now),
        old(rt)@.heartbeat_samples.len() <= HEARTBEAT_MAX_SAMPLES
            ==> final(rt)@.heartbeat_samples.len() <= HEARTBEAT_MAX_SAMPLES,
{
    let elapsed = now.saturating_sub(rt.heartbeat_last_sample_ms);
    if elapsed >= HEARTBEAT_SAMPLE_INTERVAL_MS {
        if rt.running {
            let delta = rt.downloaded_bytes.saturating_sub(rt.heartbeat_last_bytes);
            let rate = bytes_per_second(delta, elapsed);
            push_sample(&mut rt.heartbeat_samples, rate);
            rt.heartbeat_last_sample_ms = now;
            rt.heartbeat_last_bytes = rt.downloaded_bytes;
        } else {
            push_sample(&mut rt.heartbeat_samples, 0);
            rt.heartbeat_last_sample_ms = now;
        }
    }
}

} // verus!
