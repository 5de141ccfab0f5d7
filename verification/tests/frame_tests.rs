use forc_perf::benchmark::Benchmark;
use forc_perf::frame::{
    compute_sleep_ns, sampler_step, BenchmarkFrame, SamplerAction, SamplerEvent,
    MINIMUM_FRAME_DURATION_NS,
};

fn frame_at(ts: u64) -> BenchmarkFrame {
    BenchmarkFrame {
        timestamp: ts,
        cpu_usage_bits: 0.25f32.to_bits(),
        memory_usage: 1024,
        virtual_memory_usage: 4096,
        disk_total_written_bytes: 100,
        disk_written_bytes: 10,
        disk_total_read_bytes: 200,
        disk_read_bytes: 20,
    }
}

#[test]
fn sample_appends_in_order() {
    let mut frames = Vec::new();
    let a1 = sampler_step(&mut frames, SamplerEvent::Sample(frame_at(100)));
    let a2 = sampler_step(
        &mut frames,
        SamplerEvent::Sample(frame_at(100 + MINIMUM_FRAME_DURATION_NS)),
    );
    assert_eq!(a1, SamplerAction::Continue);
    assert_eq!(a2, SamplerAction::Continue);
    assert_eq!(frames.len(), 2);
    assert_eq!(frames[0].timestamp, 100);
    assert_eq!(frames[1].timestamp, 100 + MINIMUM_FRAME_DURATION_NS);
    assert_eq!(f32::from_bits(frames[0].cpu_usage_bits), 0.25);
}

#[test]
fn stop_signals_exit_without_recording() {
    let mut frames = vec![frame_at(5)];
    assert_eq!(
        sampler_step(&mut frames, SamplerEvent::StopRequested),
        SamplerAction::Exit
    );
    assert_eq!(
        sampler_step(&mut frames, SamplerEvent::ReaderStopped),
        SamplerAction::Exit
    );
    assert_eq!(frames.len(), 1);
}

#[test]
fn vanished_process_exits_and_keeps_partial_frames() {
    let mut frames = vec![frame_at(5), frame_at(5 + MINIMUM_FRAME_DURATION_NS)];
    assert_eq!(
        sampler_step(&mut frames, SamplerEvent::ProcessGone),
        SamplerAction::Exit
    );
    assert_eq!(frames.len(), 2);
}

#[test]
fn sleep_tops_up_to_the_minimum_duration() {
    assert_eq!(compute_sleep_ns(0), MINIMUM_FRAME_DURATION_NS);
    assert_eq!(
        compute_sleep_ns(40_000_000),
        MINIMUM_FRAME_DURATION_NS - 40_000_000
    );
    assert_eq!(compute_sleep_ns(MINIMUM_FRAME_DURATION_NS), 0);
    assert_eq!(compute_sleep_ns(MINIMUM_FRAME_DURATION_NS + 1), 0);
}

#[test]
fn minimum_duration_is_a_tenth_of_a_second() {
    assert_eq!(MINIMUM_FRAME_DURATION_NS, 100_000_000);
}

#[test]
fn immediate_child_exit_leaves_empty_frames() {
    // The child being gone on the very first round means nothing is ever
    // recorded and the benchmark still finalizes cleanly.
    let mut frames: Vec<BenchmarkFrame> = Vec::new();
    assert_eq!(
        sampler_step(&mut frames, SamplerEvent::ProcessGone),
        SamplerAction::Exit
    );
    assert!(frames.is_empty());

    let mut b = Benchmark::new(String::from("a"), String::from("/p"));
    b.start(1);
    b.attach_frames(frames);
    b.finalize(2);
    assert!(b.frames.is_empty());
    assert_eq!(b.end_time, Some(2));
}

#[test]
fn attached_frames_land_in_the_record() {
    let mut b = Benchmark::new(String::from("a"), String::from("/p"));
    b.start(10);
    let frames = vec![frame_at(20), frame_at(20 + MINIMUM_FRAME_DURATION_NS)];
    b.attach_frames(frames);
    b.finalize(1_000_000_000);
    assert_eq!(b.frames.len(), 2);
    assert!(b.frames[0].timestamp >= b.start_time.unwrap());
    assert!(b.frames[1].timestamp <= b.end_time.unwrap());
}
