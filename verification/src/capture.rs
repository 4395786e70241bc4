//! What capture backends share: the worker's reports, the race between start
//! and stop, and delivery into the ring.
use crate::resample::{converted, decimation, SincResampler, PHASES, TAPS};
use crate::ring::{pushed_count, pushed_onto, AudioRing};
use crate::TARGET_RATE;
use vstd::prelude::*;

verus! {

/// The worker has not opened its stream yet.
pub const PHASE_STARTING: u8 = 0;

/// Samples flow.
pub const PHASE_RUNNING: u8 = 1;

/// The worker's thread is about to end.
pub const PHASE_FINISHED: u8 = 2;

/// What the worker reports to the watchdog.
pub struct WorkerShared {
    pub phase: u8,
    /// The target process is gone.
    pub target_exited: bool,
    /// Why the worker failed; empty unless it did, and where the user asked for
    /// the stop.
    pub error: String,
    /// Negotiated format, known once the phase is `PHASE_RUNNING`.
    pub rate: u32,
    pub channels: u32,
    /// Buffers that the platform flagged discontinuous.
    pub discontinuities: u32,
}

impl WorkerShared {
    pub fn new() -> (r: Self)
        ensures
            r.phase == PHASE_STARTING,
            !r.target_exited,
            r.error@ == Seq::<char>::empty(),
            r.rate == 0,
            r.channels == 0,
            r.discontinuities == 0,
    {
        WorkerShared {
            phase: PHASE_STARTING,
            target_exited: false,
            error: String::new(),
            rate: 0,
            channels: 0,
            discontinuities: 0,
        }
    }

    /// The stream is open: publishes the format, then the phase.
    pub fn announce(&mut self, rate: u32, channels: u32)
        ensures
            *final(self) == (WorkerShared { phase: PHASE_RUNNING, rate, channels, ..*old(self) }),
    {
        self.rate = rate;
        self.channels = channels;
        self.phase = PHASE_RUNNING;
    }

    /// The worker's thread ends with `result`. A failure counts only where the
    /// user had not asked for the stop.
    pub fn conclude(&mut self, stop: bool, result: Result<(), String>)
        ensures
            *final(self) == (WorkerShared {
                phase: PHASE_FINISHED,
                error: match result {
                    Ok(_) => old(self).error,
                    Err(e) => if stop {
                        old(self).error
                    } else {
                        e
                    },
                },
                ..*old(self)
            }),
    {
        match result {
            Ok(_) => {},
            Err(e) => {
                if !stop {
                    self.error = e;
                }
            },
        }
        self.phase = PHASE_FINISHED;
    }
}

/// A step of a worker that looks at its flags and at its target in turn. Says
/// whether it is to leave: once it is told to stop, its loop has quit, or the
/// target is gone, which it then reports.
pub fn drive_step(stopped: bool, quit: bool, alive: bool, shared: &mut WorkerShared) -> (leave:
    bool)
    ensures
        leave == (stopped || quit || !alive),
        *final(shared) == (WorkerShared {
            target_exited: old(shared).target_exited || (!stopped && !alive),
            ..*old(shared)
        }),
{
    if !stopped && !alive {
        shared.target_exited = true;
    }
    stopped || quit || !alive
}

impl Default for WorkerShared {
    fn default() -> (r: Self)
        ensures
            r.phase == PHASE_STARTING,
            !r.target_exited,
            r.error@ == Seq::<char>::empty(),
            r.rate == 0,
            r.channels == 0,
            r.discontinuities == 0,
    {
        Self::new()
    }
}

/// The reason that a report gives for a failed worker.
pub open spec fn reason(error: Seq<char>) -> Seq<char> {
    if error.len() == 0 {
        "未知错误"@
    } else {
        error
    }
}

/// Why the worker failed, in words.
pub fn worker_error(shared: &WorkerShared) -> (r: String)
    ensures
        r@ == reason(shared.error@),
{
    if shared.error.as_str().is_empty() {
        "未知错误".to_string()
    } else {
        shared.error.clone()
    }
}

// ─────────────────────────── start against stop ────────────────────────────
/// Where the worker stands in raising the mixing flag.
#[derive(Clone, Copy, PartialEq, Eq, Structural, Debug)]
pub enum Engage {
    /// About to look at the stop flag.
    Check,
    /// About to raise the mixing flag.
    Raise,
    /// About to look at the stop flag again.
    Recheck,
    /// About to take the mixing flag back.
    Lower,
    Done,
}

/// What to do at a step.
#[derive(Clone, Copy, PartialEq, Eq, Structural, Debug)]
pub enum EngageAct {
    /// Load the stop flag.
    Look,
    /// Store this into the mixing flag.
    Store(bool),
    Rest,
}

pub open spec fn act_at(at: Engage) -> EngageAct {
    match at {
        Engage::Check => EngageAct::Look,
        Engage::Raise => EngageAct::Store(true),
        Engage::Recheck => EngageAct::Look,
        Engage::Lower => EngageAct::Store(false),
        Engage::Done => EngageAct::Rest,
    }
}

/// The next step, where `stopped` is what a look at the stop flag gave.
pub open spec fn engage_after(at: Engage, stopped: bool) -> Engage {
    match at {
        Engage::Check => if stopped {
            Engage::Done
        } else {
            Engage::Raise
        },
        Engage::Raise => Engage::Recheck,
        Engage::Recheck => if stopped {
            Engage::Lower
        } else {
            Engage::Done
        },
        Engage::Lower => Engage::Done,
        Engage::Done => Engage::Done,
    }
}

pub fn engage_act(at: Engage) -> (r: EngageAct)
    ensures
        r == act_at(at),
{
    match at {
        Engage::Check => EngageAct::Look,
        Engage::Raise => EngageAct::Store(true),
        Engage::Recheck => EngageAct::Look,
        Engage::Lower => EngageAct::Store(false),
        Engage::Done => EngageAct::Rest,
    }
}

pub fn engage_next(at: Engage, stopped: bool) -> (r: Engage)
    ensures
        r == engage_after(at, stopped),
{
    match at {
        Engage::Check => if stopped {
            Engage::Done
        } else {
            Engage::Raise
        },
        Engage::Raise => Engage::Recheck,
        Engage::Recheck => if stopped {
            Engage::Lower
        } else {
            Engage::Done
        },
        Engage::Lower => Engage::Done,
        Engage::Done => Engage::Done,
    }
}

/// A bound on the steps still to go.
pub open spec fn steps_left(at: Engage) -> nat {
    match at {
        Engage::Check => 4,
        Engage::Raise => 3,
        Engage::Recheck => 2,
        Engage::Lower => 1,
        Engage::Done => 0,
    }
}

/// Raises the mixing flag unless stopped, in one go: `stop` is the stop flag
/// throughout.
pub fn engage_capturing(stop: bool, capturing: bool) -> (r: bool)
    ensures
        r == if stop {
            capturing
        } else {
            true
        },
{
    let mut at = Engage::Check;
    let mut flag: bool = capturing;
    while at != Engage::Done
        invariant
            at == Engage::Check ==> flag == capturing,
            at == Engage::Raise ==> !stop,
            at == Engage::Recheck ==> !stop && flag,
            at != Engage::Lower,
            at == Engage::Done ==> flag == if stop {
                capturing
            } else {
                true
            },
        decreases steps_left(at),
    {
        match engage_act(at) {
            EngageAct::Store(b) => {
                flag = b;
            },
            _ => {},
        }
        at = engage_next(at, stop);
    }
    flag
}

/// The two flags, the worker that raises the mixing flag and the stopper that
/// raises the stop flag, then lowers the mixing flag (0, 1, 2 steps done). The
/// steps stand in one order that both threads agree on: the flags are presumed
/// sequentially consistent.
pub struct Race {
    pub stop: bool,
    pub capturing: bool,
    pub worker: Engage,
    pub stopper: int,
}

pub open spec fn worker_step(a: Race, b: Race) -> bool {
    &&& a.worker != Engage::Done
    &&& b.stop == a.stop
    &&& b.stopper == a.stopper
    &&& b.worker == engage_after(a.worker, a.stop)
    &&& b.capturing == match act_at(a.worker) {
        EngageAct::Store(flag) => flag,
        _ => a.capturing,
    }
}

pub open spec fn stopper_step(a: Race, b: Race) -> bool {
    &&& b.worker == a.worker
    &&& b.stopper == a.stopper + 1
    &&& if a.stopper == 0 {
        b.stop && b.capturing == a.capturing
    } else {
        a.stopper == 1 && b.stop == a.stop && !b.capturing
    }
}

/// A run of the race: every step is the worker's or the stopper's.
pub open spec fn is_run(run: Seq<Race>) -> bool {
    &&& run.len() > 0
    &&& !run[0].stop
    &&& run[0].worker == Engage::Check
    &&& run[0].stopper == 0
    &&& forall|i: int|
        0 <= i < run.len() - 1 ==> worker_step(#[trigger] run[i], run[i + 1]) || stopper_step(
            run[i],
            run[i + 1],
        )
}

proof fn lemma_race(run: Seq<Race>, i: int)
    requires
        is_run(run),
        0 <= i < run.len(),
    ensures
        0 <= run[i].stopper <= 2,
        run[i].stop <==> run[i].stopper >= 1,
        run[i].stopper == 2 && run[i].capturing ==> run[i].worker == Engage::Recheck
            || run[i].worker == Engage::Lower,
    decreases i,
{
    if i > 0 {
        lemma_race(run, i - 1);
        assert(worker_step(run[i - 1], run[i - 1 + 1]) || stopper_step(run[i - 1], run[i - 1 + 1]));
    }
}

/// However a start races a stop, once both are through the mixing flag is down;
/// this presumes sequentially consistent flags.
pub proof fn law_racing_start_ends_stopped(run: Seq<Race>)
    requires
        is_run(run),
        run.last().worker == Engage::Done,
        run.last().stopper == 2,
    ensures
        !run.last().capturing,
{
    lemma_race(run, run.len() - 1);
}

// ──────────────────────────────── delivery ─────────────────────────────────
/// A converter to the host chain's rate, where one is needed.
pub fn resampler_for<T: Copy>(rate: u32, zero: T, table: Vec<T>) -> (r: Option<SincResampler<T>>)
    requires
        table@.len() == PHASES * TAPS,
    ensures
        r is None <==> rate == TARGET_RATE,
        r matches Some(c) ==> {
            &&& c.wf()
            &&& c.raw() == Seq::<T>::empty()
            &&& c.fed() == Seq::<T>::empty()
            &&& c.source() == rate
            &&& c.pre() == decimation(rate as int, TARGET_RATE as int)
            &&& c.den() == c.pre() * TARGET_RATE
            &&& c.table() == table@
            &&& c.zero() == zero
            &&& c.runs() <==> rate > 0
        },
{
    if rate != TARGET_RATE {
        Some(SincResampler::new(rate, TARGET_RATE, zero, table))
    } else {
        None
    }
}

/// A converter that may be missing can take samples.
pub open spec fn is_ready<T>(converter: Option<SincResampler<T>>) -> bool {
    converter is Some ==> converter->0.wf() && converter->0.runs()
}

/// Mono samples went from the worker into the ring: as they are, or converted
/// into `out` first.
pub open spec fn delivered<T, A, P: Fn(A, T) -> A, M: Fn(A, u32) -> T, D: Fn(T, (T, T)) -> T>(
    before: (Option<SincResampler<T>>, AudioRing<T>),
    after: (Option<SincResampler<T>>, AudioRing<T>),
    mono: Seq<T>,
    out: Seq<T>,
    none: A,
    plus: P,
    mean: M,
    tap: D,
) -> bool {
    let block = if before.0 is Some {
        out
    } else {
        mono
    };
    let cap = before.1.capacity();
    &&& before.0 is Some <==> after.0 is Some
    &&& is_ready(after.0)
    &&& before.0 is Some ==> converted(
        before.0->0,
        after.0->0,
        mono,
        out,
        none,
        plus,
        mean,
        tap,
    )
    &&& after.1.wf()
    &&& after.1.capacity() == cap
    &&& after.1@ == pushed_onto(cap, before.1@, block)
    &&& after.1.dropped() == before.1.dropped().wrapping_add(
        (block.len() - pushed_count(cap, before.1@.len() as int, block.len() as int)) as u64,
    )
    &&& after.1.underruns() == before.1.underruns()
}

/// Turns mono samples into the block that goes into the ring. Says whether the
/// block is in `scratch`, converted; else it is `mono` as it stands.
pub fn convert<T: Copy, A: Copy, P: Fn(A, T) -> A, M: Fn(A, u32) -> T, D: Fn(T, (T, T)) -> T>(
    converter: &mut Option<SincResampler<T>>,
    mono: &[T],
    scratch: &mut Vec<T>,
    none: A,
    plus: &P,
    mean: &M,
    tap: &D,
) -> (r: bool)
    requires
        is_ready(*old(converter)),
        forall|a: A, x: T| call_requires(*plus, (a, x)),
        forall|a: A, n: u32| call_requires(*mean, (a, n)),
        forall|a: T, p: (T, T)| call_requires(*tap, (a, p)),
    ensures
        r == (*old(converter) is Some),
        *final(converter) is Some <==> *old(converter) is Some,
        is_ready(*final(converter)),
        *old(converter) is Some ==> converted(
            (*old(converter))->0,
            (*final(converter))->0,
            mono@,
            final(scratch)@,
            none,
            *plus,
            *mean,
            *tap,
        ),
        *old(converter) is None ==> final(scratch)@ == old(scratch)@,
{
    match converter {
        Some(c) => {
            c.process(mono, scratch, none, plus, mean, tap);
            true
        },
        None => false,
    }
}

/// Hands mono samples to the ring, converted where the rates differ.
pub fn deliver<T: Copy, A: Copy, P: Fn(A, T) -> A, M: Fn(A, u32) -> T, D: Fn(T, (T, T)) -> T>(
    converter: &mut Option<SincResampler<T>>,
    mono: &[T],
    scratch: &mut Vec<T>,
    ring: &mut AudioRing<T>,
    none: A,
    plus: &P,
    mean: &M,
    tap: &D,
)
    requires
        old(ring).wf(),
        is_ready(*old(converter)),
        forall|a: A, x: T| call_requires(*plus, (a, x)),
        forall|a: A, n: u32| call_requires(*mean, (a, n)),
        forall|a: T, p: (T, T)| call_requires(*tap, (a, p)),
    ensures
        delivered(
            (*old(converter), *old(ring)),
            (*final(converter), *final(ring)),
            mono@,
            final(scratch)@,
            none,
            *plus,
            *mean,
            *tap,
        ),
        *old(converter) is None ==> final(scratch)@ == old(scratch)@,
{
    if convert(converter, mono, scratch, none, plus, mean, tap) {
        ring.push(scratch.as_slice());
    } else {
        ring.push(mono);
    }
}

} // verus!
