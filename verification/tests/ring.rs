use focus_capture::process::{
    answer, level_after, level_at, plan_process, process, ProcessPlan, BACKLOG_SAMPLES,
    FADE_SAMPLES, RING_CAP,
};
use focus_capture::abi::mpl_result_t;
use focus_capture::ring::{mix_feed, plan_mix, plan_push, AudioRing};

fn mix(
    ring: &mut AudioRing<f32>,
    data: &mut [f32],
    frames: usize,
    channels: usize,
    backlog: usize,
    coef: impl FnMut(usize) -> f32,
) -> usize {
    ring.mix_mono_into(
        data,
        frames,
        channels,
        backlog,
        coef,
        &|g: f32| g == 0.0,
        &|slot: f32, s: f32, g: f32| slot + s * g,
    )
}

#[test]
fn push_pop_roundtrip() {
    let mut ring = AudioRing::new(16);
    assert_eq!(ring.push(&[1.0, 2.0, 3.0]), 3);
    assert_eq!(ring.available(), 3);
    let mut out = [0.0f32; 6]; // 6 frames mono
    let fed = mix(&mut ring, &mut out, 6, 1, 16, |_| 1.0);
    assert_eq!(fed, 3);
    assert_eq!(out, [1.0, 2.0, 3.0, 0.0, 0.0, 0.0]);
    assert_eq!(ring.underruns(), 3);
}

#[test]
fn wraparound_is_seamless() {
    let mut ring = AudioRing::new(8);
    ring.push(&[1.0, 2.0, 3.0, 4.0, 5.0, 6.0]); // fill 6 of 8
    let mut out = [0.0f32; 6];
    mix(&mut ring, &mut out, 6, 1, 8, |_| 1.0); // drain → read at 6
    ring.push(&[7.0, 8.0, 9.0, 10.0]); // wraps over the seam
    let mut out2 = [0.0f32; 4];
    let fed = mix(&mut ring, &mut out2, 4, 1, 8, |_| 1.0);
    assert_eq!(fed, 4);
    assert_eq!(out2, [7.0, 8.0, 9.0, 10.0]);
}

#[test]
fn full_ring_drops_newest_and_counts() {
    let mut ring = AudioRing::new(4);
    assert_eq!(ring.push(&[1.0, 2.0, 3.0, 4.0, 5.0]), 4);
    assert_eq!(ring.dropped(), 1);
    assert_eq!(ring.push(&[6.0]), 0);
    let mut out = [0.0f32; 4];
    mix(&mut ring, &mut out, 4, 1, 4, |_| 1.0);
    assert_eq!(out, [1.0, 2.0, 3.0, 4.0]);
    assert_eq!(ring.dropped(), 2);
}

#[test]
fn consumer_purges_stale_backlog() {
    let mut ring = AudioRing::new(64);
    ring.push(&(0..32).map(|i| i as f32).collect::<Vec<_>>());
    let mut out = [0.0f32; 4];
    // backlog 4 → the 28 oldest samples must be dropped, keeping the tail.
    let fed = mix(&mut ring, &mut out, 4, 1, 4, |_| 1.0);
    assert_eq!(fed, 4);
    assert_eq!(out, [28.0, 29.0, 30.0, 31.0]);
}

#[test]
fn stereo_upmix_adds_to_all_channels() {
    let mut ring = AudioRing::new(16);
    ring.push(&[0.5, 1.0]);
    let mut out = [0.25f32; 4]; // 2 stereo frames
    let fed = mix(&mut ring, &mut out, 2, 2, 16, |_| 2.0);
    assert_eq!(fed, 2);
    assert_eq!(out, [1.25, 1.25, 2.25, 2.25]);
}

#[test]
fn the_gain_is_asked_once_per_fed_frame() {
    let mut ring = AudioRing::new(8);
    ring.push(&[1.0, 1.0, 1.0]);
    let mut asked = Vec::new();
    let mut out = [0.0f32; 10];
    let fed = mix(&mut ring, &mut out, 5, 2, 8, |f| {
        asked.push(f);
        f as f32
    });
    assert_eq!(fed, 3);
    assert_eq!(asked, vec![0, 1, 2]);
    assert_eq!(out, [0.0, 0.0, 1.0, 1.0, 2.0, 2.0, 0.0, 0.0, 0.0, 0.0]);
}

#[test]
fn slots_past_the_end_are_skipped() {
    let mut ring = AudioRing::new(8);
    ring.push(&[1.0, 2.0]);
    let mut out = [0.0f32; 3];
    assert_eq!(mix(&mut ring, &mut out, 2, 2, 8, |_| 1.0), 2);
    assert_eq!(out, [1.0, 1.0, 2.0]);
}

#[test]
fn a_silent_gain_leaves_its_frame_alone() {
    let mut ring = AudioRing::new(8);
    ring.push(&[f32::NAN, 2.0, f32::INFINITY]);
    let mut out = [0.5f32; 6];
    let fed = mix(&mut ring, &mut out, 3, 2, 8, |f| if f == 1 { 3.0 } else { 0.0 });
    assert_eq!(fed, 3);
    assert_eq!(out, [0.5, 0.5, 6.5, 6.5, 0.5, 0.5]);
}

#[test]
fn samples_come_out_in_order_over_a_long_history() {
    let mut ring = AudioRing::new(16);
    let (mut pushed, mut fed) = (Vec::new(), Vec::new());
    let mut next = 0u32;
    for round in 0..200usize {
        let block: Vec<f32> = (0..round % 7).map(|i| (next + i as u32) as f32).collect();
        next += block.len() as u32;
        let n = ring.push(&block);
        pushed.extend_from_slice(&block[..n]);
        let mut out = vec![0.0f32; round % 5];
        let frames = out.len();
        let take = mix(&mut ring, &mut out, frames, 1, 16, |_| 1.0);
        fed.extend_from_slice(&out[..take]);
    }
    let left = ring.available();
    let mut out = vec![0.0f32; left];
    mix(&mut ring, &mut out, left, 1, 16, |_| 1.0);
    fed.extend_from_slice(&out);
    // The first sample is zero, which adds nothing but is fed all the same.
    assert_eq!(fed, pushed);
    assert!(ring.dropped() > 0);
}

#[test]
fn two_runs_are_mixed_one_after_the_other() {
    let mut out = [1.0f32; 4];
    mix_feed(
        &[1.0, 2.0],
        &[3.0],
        &mut out,
        1,
        |f: usize| f as f32,
        &|g: f32| g == 0.0,
        &|slot: f32, s: f32, g: f32| slot + s * g,
    );
    assert_eq!(out, [1.0, 3.0, 7.0, 1.0]);
}

#[test]
fn without_channels_no_slot_is_touched() {
    let mut ring = AudioRing::new(8);
    ring.push(&[1.0, 2.0, 3.0]);
    let mut out = [0.5f32; 4];
    assert_eq!(mix(&mut ring, &mut out, 2, 0, 8, |_| 1.0), 2);
    assert_eq!(out, [0.5; 4]);
    assert_eq!(ring.available(), 1);
}

#[test]
fn clearing_forgets_what_was_held() {
    let mut ring = AudioRing::new(8);
    ring.push(&[1.0, 2.0]);
    ring.clear();
    assert_eq!(ring.available(), 0);
    ring.push(&[5.0]);
    let mut out = [0.0f32; 1];
    assert_eq!(mix(&mut ring, &mut out, 1, 1, 8, |_| 1.0), 1);
    assert_eq!(out, [5.0]);
}

#[test]
fn an_empty_ring_leaves_the_block_alone() {
    let mut ring: AudioRing<f32> = AudioRing::new(8);
    let mut out = [0.75f32; 2];
    assert_eq!(mix(&mut ring, &mut out, 2, 1, 8, |_| 1.0), 0);
    assert_eq!(out, [0.75, 0.75]);
    assert_eq!(ring.underruns(), 2);
    assert_eq!(ring.push(&[]), 0);
}

#[test]
fn plans_work_across_the_counters_wrap() {
    // Positions are monotonic counters: the write counter has wrapped.
    let p = plan_push(2, usize::MAX - 1, 7, 6);
    assert_eq!((p.take, p.start, p.first, p.write), (4, 2, 4, 6));
    let m = plan_mix(2, usize::MAX - 1, 7, 9, 3);
    assert_eq!((m.take, m.missing, m.start, m.first), (3, 6, 7, 1));
    assert_eq!(m.read, 2);
}

#[test]
fn the_ring_is_sized_for_the_host_rate() {
    assert_eq!(RING_CAP, 65_536);
    assert_eq!(BACKLOG_SAMPLES, 48_000 * 3 / 10);
    assert_eq!(FADE_SAMPLES, 480);
}

#[test]
fn a_block_is_refused_bypassed_or_mixed() {
    let plan = |d: bool, b: bool, s: u32, c: u32, a: bool, l: u32, r: bool| {
        plan_process(d, b, s, c, a, l, r)
    };
    assert_eq!(plan(true, false, 8, 2, true, 0, true), ProcessPlan::Refuse);
    assert_eq!(plan(false, true, 8, 2, true, 0, true), ProcessPlan::Refuse);
    assert_eq!(plan(false, false, 0, 2, true, 0, true), ProcessPlan::Refuse);
    assert_eq!(plan(false, false, 8, 0, true, 0, true), ProcessPlan::Refuse);
    assert_eq!(plan(false, false, 8, 2, false, 0, true), ProcessPlan::Bypass);
    assert_eq!(plan(false, false, 8, 2, true, 0, false), ProcessPlan::Bypass);
    assert_eq!(plan(false, false, 9, 2, true, 0, true), ProcessPlan::Mix(4));
    assert_eq!(plan(false, false, 9, 2, false, 1, true), ProcessPlan::Mix(4));
    assert_eq!(answer(ProcessPlan::Refuse), (mpl_result_t::MPL_ERR_INVALID_ARG, 1));
    assert_eq!(answer(ProcessPlan::Bypass), (mpl_result_t::MPL_OK, 1));
    assert_eq!(answer(ProcessPlan::Mix(4)), (mpl_result_t::MPL_OK, 0));
}

#[test]
fn fades_move_one_step_per_frame() {
    assert_eq!(level_at(0, true, 0), 1);
    assert_eq!(level_at(0, true, 478), 479);
    assert_eq!(level_at(0, true, 479), 480);
    assert_eq!(level_at(0, true, 100_000), 480);
    assert_eq!(level_at(480, false, 0), 479);
    assert_eq!(level_at(480, false, 479), 0);
    assert_eq!(level_at(3, false, 7), 0);
    // While a session mixes, only fed frames move the fade.
    assert_eq!(level_after(10, true, 100, 4), 14);
    assert_eq!(level_after(10, true, 100, 0), 10);
    // Afterwards every frame does.
    assert_eq!(level_after(480, false, 100, 4), 380);
    assert_eq!(level_after(50, false, 100, 0), 0);
}

#[test]
fn a_stopped_session_is_bypassed_within_one_fade() {
    let mut ring: AudioRing<f32> = AudioRing::new(1024);
    let mut level = 480u32;
    let mut out = vec![0.0f32; 160];
    let scale = |n: u32| n as f32 / 480.0;
    let silent = |g: f32| g == 0.0;
    let blend = |slot: f32, s: f32, g: f32| slot + s * g;
    for left in [320u32, 160, 0] {
        process(&mut ring, &mut out, 160, 1, false, &mut level, &scale, &silent, &blend);
        assert_eq!(level, left);
    }
    assert_eq!(plan_process(false, false, 160, 1, false, level, true), ProcessPlan::Bypass);
}

#[test]
fn a_block_is_mixed_at_the_fading_gain() {
    let mut ring = AudioRing::new(8);
    ring.push(&[1.0f32, 1.0, 1.0]);
    let mut level = 478u32;
    let mut out = vec![0.5f32; 8];
    let fed = process(
        &mut ring,
        &mut out,
        4,
        2,
        true,
        &mut level,
        &|n: u32| n as f32,
        &|g: f32| g == 0.0,
        &|slot: f32, s: f32, g: f32| slot + s * g,
    );
    assert_eq!(fed, 3);
    assert_eq!(out, vec![479.5, 479.5, 480.5, 480.5, 480.5, 480.5, 0.5, 0.5]);
    assert_eq!(level, 480);
    assert_eq!(ring.underruns(), 1);
}
