//! Resource frames and the sampler's decisions: what one sample records,
//! when the sampling loop exits, and how long it sleeps to hold the bounded
//! sampling rate.
//!
//! The OS refresh itself, and the normalization of the CPU percentage (a
//! 32-bit float), happen outside the library; a frame reaches it as plain
//! values, the CPU fraction as its raw bit pattern, carried through opaquely.

use vstd::prelude::*;

use crate::TimeNs;

verus! {

/// The least time one sampling round may take: caps the rate near 10 Hz and
/// gives the OS's delta counters a meaningful window.
pub const MINIMUM_FRAME_DURATION_NS: u64 = 100_000_000;

/// One sample of the child process's resource usage at a single instant.
#[derive(Debug, Clone, Copy, PartialEq, Eq, Structural)]
pub struct BenchmarkFrame {
    /// When the sampling round began, in nanoseconds since the epoch.
    pub timestamp: TimeNs,
    /// The process's CPU usage normalized to a 0..1 fraction of the whole
    /// machine, as the raw bit pattern of the 32-bit float; opaque here.
    pub cpu_usage_bits: u32,
    /// Resident memory in bytes.
    pub memory_usage: u64,
    /// Virtual memory in bytes.
    pub virtual_memory_usage: u64,
    /// Bytes written to disk over the process's lifetime.
    pub disk_total_written_bytes: u64,
    /// Bytes written to disk since the previous refresh.
    pub disk_written_bytes: u64,
    /// Bytes read from disk over the process's lifetime.
    pub disk_total_read_bytes: u64,
    /// Bytes read from disk since the previous refresh.
    pub disk_read_bytes: u64,
}

/// Frame timestamps never decrease in sample order.
pub open spec fn frames_ordered(fs: Seq<BenchmarkFrame>) -> bool {
    forall|i: int, j: int|
        #![trigger fs[i], fs[j]]
        0 <= i < j < fs.len() ==> fs[i].timestamp <= fs[j].timestamp
}

/// Consecutive frames lie at least the minimum frame duration apart.
pub open spec fn frames_spaced(fs: Seq<BenchmarkFrame>) -> bool {
    forall|i: int|
        0 <= i && i + 1 < fs.len() ==> (#[trigger] fs[i]).timestamp + MINIMUM_FRAME_DURATION_NS
            <= fs[i + 1].timestamp
}

/// What the sampling loop sees at the top of one round.
pub enum SamplerEvent {
    /// The reconciler signalled the sampler's own stop channel.
    StopRequested,
    /// The line reader's stop channel signalled; either shutdown path ends
    /// the sampler.
    ReaderStopped,
    /// The OS refresh matched no process: the child is gone.
    ProcessGone,
    /// The refresh succeeded and produced this frame.
    Sample(BenchmarkFrame),
}

/// What the sampling loop does next.
#[derive(Debug, Clone, Copy, PartialEq, Eq, Structural)]
pub enum SamplerAction {
    /// Leave the loop; the frames collected so far are kept.
    Exit,
    /// Keep sampling after the rate-limiting sleep.
    Continue,
}

/// One decision of the sampling loop: any shutdown condition exits and
/// leaves the frames untouched; a successful sample is appended in order.
pub fn sampler_step(frames: &mut Vec<BenchmarkFrame>, event: SamplerEvent) -> (r: SamplerAction)
    requires
        frames_ordered(old(frames)@),
        (event matches SamplerEvent::Sample(f) ==> (old(frames)@.len() > 0 ==> old(
            frames,
        )@.last().timestamp <= f.timestamp)),
    ensures
        frames_ordered(final(frames)@),
        (match event {
            SamplerEvent::Sample(f) => r == SamplerAction::Continue && final(frames)@ == old(
                frames,
            )@.push(f),
            _ => r == SamplerAction::Exit && final(frames)@ == old(frames)@,
        }),
{
    match event {
        SamplerEvent::Sample(f) => {
            frames.push(f);
            SamplerAction::Continue
        },
        SamplerEvent::StopRequested => SamplerAction::Exit,
        SamplerEvent::ReaderStopped => SamplerAction::Exit,
        SamplerEvent::ProcessGone => SamplerAction::Exit,
    }
}

/// How long the sampling loop must still sleep after a round that took
/// `elapsed_ns`: enough that the whole round spans at least the minimum
/// frame duration, and not a nanosecond more.
pub fn compute_sleep_ns(elapsed_ns: u64) -> (r: u64)
    ensures
        r == if elapsed_ns >= MINIMUM_FRAME_DURATION_NS {
            0u64
        } else {
            (MINIMUM_FRAME_DURATION_NS - elapsed_ns) as u64
        },
        elapsed_ns + r >= MINIMUM_FRAME_DURATION_NS,
{
    if elapsed_ns >= MINIMUM_FRAME_DURATION_NS {
        0
    } else {
        MINIMUM_FRAME_DURATION_NS - elapsed_ns
    }
}

/// Appending a frame taken at least the minimum duration after the last one
/// keeps the frames spaced; with the sleep of [`compute_sleep_ns`] between
/// rounds, every run of the sampling loop satisfies this.
pub proof fn lemma_spacing_preserved(fs: Seq<BenchmarkFrame>, f: BenchmarkFrame)
    requires
        frames_spaced(fs),
        fs.len() > 0 ==> fs.last().timestamp + MINIMUM_FRAME_DURATION_NS <= f.timestamp,
    ensures
        frames_spaced(fs.push(f)),
{
    assert forall|i: int|
        0 <= i && i + 1 < fs.push(f).len() implies (#[trigger] fs.push(f)[i]).timestamp
        + MINIMUM_FRAME_DURATION_NS <= fs.push(f)[i + 1].timestamp by {
        assert(fs.push(f).len() == fs.len() + 1);
        if i + 1 < fs.len() {
            assert(fs.push(f)[i] == fs[i]);
            assert(fs.push(f)[i + 1] == fs[i + 1]);
            assert(fs[i].timestamp + MINIMUM_FRAME_DURATION_NS <= fs[i + 1].timestamp);
        } else {
            assert(i + 1 == fs.len());
            assert(fs.push(f)[i] == fs[i]);
            assert(fs[i] == fs.last());
            assert(fs.push(f)[i + 1] == f);
        }
    }
}

} // verus!
