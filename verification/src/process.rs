//! The real-time path: when a block is mixed, and the fade that keeps starts
//! and stops free of clicks.
//!
//! The fade is a level of `0 ..= FADE_SAMPLES` steps that moves one step per
//! mixed frame, up while a session mixes and down otherwise. A frame at level
//! `n` is mixed with the fraction `n / FADE_SAMPLES` of the gain.
use crate::abi::mpl_result_t;
use crate::ring::{fed_count, feed_of, gains_of, mixed, rest_of, AudioRing};
use vstd::prelude::*;

verus! {

/// The ring's capacity: some 1.37 s of mono samples at the host's rate.
pub const RING_CAP: usize = 65_536;

/// Samples older than 300 ms are discarded.
pub const BACKLOG_SAMPLES: usize = 14_400;

/// The length of a fade: 10 ms at the host's rate.
pub const FADE_SAMPLES: u32 = 480;

// ──────────────────────────────── the fade ─────────────────────────────────
/// The level `steps` frames after `level`.
pub open spec fn faded(level: int, active: bool, steps: int) -> int {
    if active {
        if level + steps < FADE_SAMPLES {
            level + steps
        } else {
            FADE_SAMPLES as int
        }
    } else if level > steps {
        level - steps
    } else {
        0
    }
}

/// The level at which frame `frame` of a block is mixed, where `level` is the
/// level before the block.
pub fn level_at(level: u32, active: bool, frame: usize) -> (r: u32)
    requires
        level <= FADE_SAMPLES,
    ensures
        r == faded(level as int, active, frame + 1),
        r <= FADE_SAMPLES,
{
    if active {
        if frame < (FADE_SAMPLES - level) as usize {
            level + (frame as u32) + 1
        } else {
            FADE_SAMPLES
        }
    } else if frame < level as usize {
        level - (frame as u32) - 1
    } else {
        0
    }
}

/// The level after a block of `frames` frames of which `take` were fed. While a
/// session mixes only fed frames move it; afterwards every frame does, so that
/// it settles though no samples come.
pub open spec fn settled_level(level: int, active: bool, frames: int, take: int) -> int {
    faded(
        level,
        active,
        if active {
            take
        } else {
            frames
        },
    )
}

/// The level after a block.
pub fn level_after(level: u32, active: bool, frames: usize, take: usize) -> (r: u32)
    requires
        level <= FADE_SAMPLES,
        take <= frames,
    ensures
        r == settled_level(level as int, active, frames as int, take as int),
        r <= FADE_SAMPLES,
{
    let steps: usize = if active {
        take
    } else {
        frames
    };
    if steps == 0 {
        level
    } else {
        level_at(level, active, steps - 1)
    }
}

// ───────────────────────────────── a block ─────────────────────────────────
/// What becomes of a block.
#[derive(Clone, Copy, PartialEq, Eq, Structural, Debug)]
pub enum ProcessPlan {
    /// The arguments are no block.
    Refuse,
    /// The host keeps the block as it is.
    Bypass,
    /// This many frames are mixed.
    Mix(usize),
}

/// Whether a call hands over a block.
pub open spec fn is_block(data_null: bool, bypass_null: bool, samples: u32, channels: u32) -> bool {
    !data_null && !bypass_null && channels > 0 && samples > 0
}

/// What becomes of a block: nothing is mixed while no session mixes and the
/// fade has settled, nor before there is a ring.
pub fn plan_process(
    data_null: bool,
    bypass_null: bool,
    samples: u32,
    channels: u32,
    active: bool,
    level: u32,
    ring: bool,
) -> (r: ProcessPlan)
    ensures
        r == if !is_block(data_null, bypass_null, samples, channels) {
            ProcessPlan::Refuse
        } else if !ring || (!active && level == 0) {
            ProcessPlan::Bypass
        } else {
            ProcessPlan::Mix((samples / channels) as usize)
        },
{
    if data_null || bypass_null || channels == 0 || samples == 0 {
        ProcessPlan::Refuse
    } else if !active && level == 0 {
        ProcessPlan::Bypass
    } else if !ring {
        ProcessPlan::Bypass
    } else {
        ProcessPlan::Mix((samples / channels) as usize)
    }
}

/// What the host is answered, and the bypass flag that it is told.
pub fn answer(plan: ProcessPlan) -> (r: (mpl_result_t, u32))
    ensures
        r.0 == if plan == ProcessPlan::Refuse {
            mpl_result_t::MPL_ERR_INVALID_ARG
        } else {
            mpl_result_t::MPL_OK
        },
        r.1 == if plan is Mix {
            0u32
        } else {
            1u32
        },
{
    match plan {
        ProcessPlan::Refuse => (mpl_result_t::MPL_ERR_INVALID_ARG, 1),
        ProcessPlan::Bypass => (mpl_result_t::MPL_OK, 1),
        ProcessPlan::Mix(_) => (mpl_result_t::MPL_OK, 0),
    }
}

/// Whether `scale` takes every level.
pub open spec fn takes_levels<T, S: Fn(u32) -> T>(scale: &S) -> bool {
    forall|n: u32| n <= FADE_SAMPLES ==> call_requires(*scale, (n,))
}

/// Whether `scale` gives `gain` for a level.
pub open spec fn gives<T, S: Fn(u32) -> T>(scale: &S, level: int, gain: T) -> bool {
    call_ensures(*scale, (level as u32,), gain)
}

/// Gains that follow the fade: frame `i` has one that `scale` gives for its
/// level.
pub open spec fn fade_gains<T, S: Fn(u32) -> T>(
    scale: &S,
    level: int,
    active: bool,
    gains: Seq<T>,
) -> bool {
    forall|i: int|
        0 <= i < gains.len() ==> gives(scale, faded(level, active, i + 1), #[trigger] gains[i])
}

/// Mixes a block: held samples at the fading gain, except where that gain is
/// silent. Returns the number of frames that were fed.
pub fn process<T: Copy, S: Fn(u32) -> T, Q: Fn(T) -> bool, A: Fn(T, T, T) -> T>(
    ring: &mut AudioRing<T>,
    data: &mut [T],
    frames: usize,
    channels: usize,
    active: bool,
    level: &mut u32,
    scale: &S,
    silent: &Q,
    blend: &A,
) -> (fed: usize)
    requires
        old(ring).wf(),
        frames * channels <= usize::MAX,
        *old(level) <= FADE_SAMPLES,
        takes_levels(scale),
        forall|g: T| call_requires(*silent, (g,)),
        forall|a: T, s: T, g: T| call_requires(*blend, (a, s, g)),
    ensures
        final(ring).wf(),
        final(ring).capacity() == old(ring).capacity(),
        fed == fed_count(old(ring)@.len() as int, BACKLOG_SAMPLES as int, frames as int),
        final(ring)@ == rest_of(old(ring)@, BACKLOG_SAMPLES as int, frames as int),
        final(ring).dropped() == old(ring).dropped(),
        final(ring).underruns() == old(ring).underruns().wrapping_add((frames - fed) as u64),
        *final(level) == settled_level(*old(level) as int, active, frames as int, fed as int),
        exists|gains: Seq<T>|
            fade_gains(scale, *old(level) as int, active, gains) && #[trigger] mixed(
                old(data)@,
                final(data)@,
                feed_of(old(ring)@, BACKLOG_SAMPLES as int, frames as int),
                gains,
                channels as int,
                *silent,
                *blend,
            ),
        channels == 0 ==> final(data)@ == old(data)@,
{
    let before: u32 = *level;
    let coef = |frame: usize| -> (g: T)
        requires
            before <= FADE_SAMPLES,
            takes_levels(scale),
        ensures
            gives(scale, faded(before as int, active, frame + 1), g),
        { scale(level_at(before, active, frame)) };
    let fed: usize = ring.mix_mono_into(data, frames, channels, BACKLOG_SAMPLES, coef, silent, blend);
    proof {
        let gains = choose|gains: Seq<T>|
            gains_of(coef, gains) && #[trigger] mixed(
                old(data)@,
                data@,
                feed_of(old(ring)@, BACKLOG_SAMPLES as int, frames as int),
                gains,
                channels as int,
                *silent,
                *blend,
            );
        assert(fade_gains(scale, before as int, active, gains));
    }
    *level = level_after(before, active, frames, fed);
    fed
}

// ────────────────────────────────── laws ───────────────────────────────────
/// A fade is complete after `FADE_SAMPLES` frames, from wherever it started.
pub proof fn law_a_fade_takes_ten_milliseconds(level: int, active: bool, steps: int)
    requires
        0 <= level <= FADE_SAMPLES,
        steps >= FADE_SAMPLES,
    ensures
        faded(level, active, steps) == if active {
            FADE_SAMPLES as int
        } else {
            0
        },
{
}

/// Neighbouring frames are at most one step apart, in either direction.
pub proof fn law_a_fade_has_no_jumps(level: int, active: bool, steps: int)
    requires
        0 <= level <= FADE_SAMPLES,
        steps >= 0,
    ensures
        -1 <= faded(level, active, steps + 1) - faded(level, active, steps) <= 1,
        0 <= faded(level, active, steps) <= FADE_SAMPLES,
{
}

/// A fade goes on where the block before left it.
pub proof fn law_fades_span_blocks(level: int, active: bool, first: int, second: int)
    requires
        0 <= level <= FADE_SAMPLES,
        first >= 0,
        second >= 0,
    ensures
        faded(faded(level, active, first), active, second) == faded(level, active, first + second),
{
}

/// Once a session has stopped, blocks of one fade's length in all bring the
/// bypass back, whether samples still came or not.
pub proof fn law_silence_is_bypassed(
    level: int,
    first: int,
    first_take: int,
    second: int,
    second_take: int,
)
    requires
        0 <= level <= FADE_SAMPLES,
        0 <= first_take <= first,
        0 <= second_take <= second,
        first + second >= FADE_SAMPLES,
    ensures
        settled_level(
            settled_level(level, false, first, first_take),
            false,
            second,
            second_take,
        ) == 0,
{
}

} // verus!
