//! Capture through PipeWire: the order of the worker's calls, what it says when
//! one fails, and its buffers.
use crate::capture::{deliver, delivered, is_ready};
use crate::downmix::{
    convert_interleaved_to_mono, frame_of, is_mono, kind_of, raw_samples, width, Raw,
};
use crate::pod::{bits_of, chunk_frames, chunk_window, format_of, parse_format_pod, Fmt, SpaIds};
use crate::resample::SincResampler;
use crate::ring::AudioRing;
use crate::text::{chars_of, decimal, push_decimal, string_of, trim, trimmed};
use vstd::prelude::*;
use vstd::string::StringExecFns;

verus! {

/// How long the worker looks for the target's output stream.
pub const SEARCH_BUDGET_NS: u128 = 2_000_000_000;

/// How long the worker waits for the target to list its formats.
pub const ADOPT_BUDGET_NS: u128 = 1_000_000_000;

/// A process's name, where `content` is what its name file holds.
pub fn comm_name(content: Option<String>) -> (r: String)
    ensures
        r@ == match content {
            Some(text) => trimmed(text@),
            None => Seq::empty(),
        },
{
    match content {
        Some(text) => {
            let chars = chars_of(text.as_str());
            string_of(trim(chars.as_slice()))
        },
        None => String::new(),
    }
}

// ─────────────────────────────── opening calls ─────────────────────────────
/// The call that the worker makes next.
#[derive(Clone, Copy, PartialEq, Eq, Structural, Debug)]
pub enum Step {
    MakeLoop,
    MakeContext,
    Connect,
    GetRegistry,
    /// Look for the target's output stream: see `missing_stream`.
    Search,
    MakeStream,
    Listen,
    /// Link the stream to the target.
    Attach,
    /// Samples flow.
    Drive,
}

/// The call after one that succeeded.
pub open spec fn after(step: Step) -> Step {
    match step {
        Step::MakeLoop => Step::MakeContext,
        Step::MakeContext => Step::Connect,
        Step::Connect => Step::GetRegistry,
        Step::GetRegistry => Step::Search,
        Step::Search => Step::MakeStream,
        Step::MakeStream => Step::Listen,
        Step::Listen => Step::Attach,
        Step::Attach => Step::Drive,
        Step::Drive => Step::Drive,
    }
}

/// What the worker says in front of a failed call's own description.
pub open spec fn complaint(step: Step) -> Seq<char> {
    match step {
        Step::MakeLoop => "PipeWire MainLoop: "@,
        Step::MakeContext => "PipeWire Context: "@,
        Step::Connect => "PipeWire 连接失败（是否在 PipeWire 会话中？）: "@,
        Step::GetRegistry => "PipeWire registry: "@,
        Step::MakeStream => "PipeWire Stream: "@,
        Step::Listen => "PipeWire stream listener: "@,
        Step::Attach => "PipeWire 连接目标节点失败: "@,
        Step::Search | Step::Drive => Seq::empty(),
    }
}

/// Where a call's outcome leads: on, or to the worker's end. An error is the
/// description of what failed.
pub fn advance(step: Step, outcome: Result<(), String>) -> (r: Result<Step, String>)
    ensures
        r is Ok <==> outcome is Ok,
        r matches Ok(s) ==> s == after(step),
        r matches Err(e) ==> e@ == complaint(step) + outcome->Err_0@,
{
    match outcome {
        Ok(_) => Ok(
            match step {
                Step::MakeLoop => Step::MakeContext,
                Step::MakeContext => Step::Connect,
                Step::Connect => Step::GetRegistry,
                Step::GetRegistry => Step::Search,
                Step::Search => Step::MakeStream,
                Step::MakeStream => Step::Listen,
                Step::Listen => Step::Attach,
                Step::Attach => Step::Drive,
                Step::Drive => Step::Drive,
            },
        ),
        Err(e) => {
            let mut out = match step {
                Step::MakeLoop => "PipeWire MainLoop: ".to_string(),
                Step::MakeContext => "PipeWire Context: ".to_string(),
                Step::Connect => "PipeWire 连接失败（是否在 PipeWire 会话中？）: ".to_string(),
                Step::GetRegistry => "PipeWire registry: ".to_string(),
                Step::MakeStream => "PipeWire Stream: ".to_string(),
                Step::Listen => "PipeWire stream listener: ".to_string(),
                Step::Attach => "PipeWire 连接目标节点失败: ".to_string(),
                Step::Search | Step::Drive => String::new(),
            };
            out.append(e.as_str());
            Err(out)
        },
    }
}

/// What the worker says where the target has no output stream.
pub fn missing_stream(pid: u32) -> (r: String)
    ensures
        r@ == "PipeWire 未找到 pid "@ + decimal(pid as nat)
            + " 的活动音频输出流（应用需正在发声；Wayland 会话不支持前台识别）"@,
{
    let mut out = "PipeWire 未找到 pid ".to_string();
    push_decimal(&mut out, pid as u128);
    out.append(" 的活动音频输出流（应用需正在发声；Wayland 会话不支持前台识别）");
    out
}

/// What to do while something is awaited on the loop.
#[derive(Clone, Copy, PartialEq, Eq, Structural, Debug)]
pub enum Await {
    Found,
    /// Run the loop once more.
    Iterate,
    /// The budget is spent.
    Missing,
}

/// What to do while the target's output stream is looked for. A stream that
/// carries the daemon's stamp is taken at once; a lesser one only when every
/// stream is listed or the budget is spent, so that it beats no better one.
pub fn search_step(found: bool, stamped: bool, listed: bool, waited_ns: u128) -> (r: Await)
    ensures
        r == if found && (stamped || listed || waited_ns >= SEARCH_BUDGET_NS) {
            Await::Found
        } else if waited_ns < SEARCH_BUDGET_NS {
            Await::Iterate
        } else {
            Await::Missing
        },
{
    await_step(
        found && (stamped || listed || waited_ns >= SEARCH_BUDGET_NS),
        waited_ns,
        SEARCH_BUDGET_NS,
    )
}

/// What to do while something is awaited on the loop: what has come is taken
/// whatever the time.
pub fn await_step(found: bool, waited_ns: u128, budget_ns: u128) -> (r: Await)
    ensures
        r == if found {
            Await::Found
        } else if waited_ns < budget_ns {
            Await::Iterate
        } else {
            Await::Missing
        },
{
    if found {
        Await::Found
    } else if waited_ns < budget_ns {
        Await::Iterate
    } else {
        Await::Missing
    }
}

/// Keeps the first format that the target lists.
pub fn adopt(slot: &mut Option<Vec<u8>>, listed: Vec<u8>)
    ensures
        *final(slot) == if *old(slot) is Some {
            *old(slot)
        } else {
            Some(listed)
        },
{
    if slot.is_none() {
        *slot = Some(listed);
    }
}

/// The format that a changed parameter announces, where it is the format and
/// is understood.
pub fn negotiated(ids: &SpaIds, is_format: bool, pod: Option<&[u8]>) -> (r: Option<Fmt>)
    ensures
        r == match pod {
            Some(bytes) => if is_format {
                format_of(*ids, bytes@)
            } else {
                None
            },
            None => None::<Fmt>,
        },
{
    if !is_format {
        return None;
    }
    match pod {
        Some(bytes) => parse_format_pod(ids, bytes),
        None => None,
    }
}

/// Whether the worker is to report that samples flow: once, when a format is
/// known.
pub fn announces(announced: bool, rate: u32) -> (r: bool)
    ensures
        r == (!announced && rate != 0),
{
    !announced && rate != 0
}

// ───────────────────────────────── buffers ─────────────────────────────────
/// A format in which buffers can be read.
pub open spec fn is_readable(fmt: Fmt) -> bool {
    1 <= fmt.channels && fmt.channels * 4 <= usize::MAX
}

/// Bytes per frame of a format.
pub open spec fn frame_size(fmt: Fmt) -> int {
    fmt.channels * (bits_of(fmt.kind) / 8)
}

/// Where a buffer's frames start, and how many there are.
pub open spec fn window_of(fmt: Fmt, bytes: Seq<u8>, offset: u32, size: u32) -> (int, int) {
    chunk_frames(bytes.len() as int, offset as int, size as int, frame_size(fmt))
}

/// Whether a buffer holds anything that can be heard.
pub open spec fn is_heard(
    stopped: bool,
    fmt: Option<Fmt>,
    bytes: Option<&[u8]>,
    offset: u32,
    size: u32,
) -> bool {
    !stopped && fmt is Some && bytes is Some && window_of(fmt->0, bytes->0@, offset, size).1 > 0
}

/// The samples of a buffer's first frames.
pub open spec fn chunk_samples(fmt: Fmt, bytes: Seq<u8>, frames: int) -> Seq<Raw> {
    raw_samples(kind_of(fmt.kind == 0, bits_of(fmt.kind)), bytes, frames * fmt.channels)
}

/// `mono` is what a buffer sounds like.
pub open spec fn chunk_sound<A, T, P: Fn(A, Raw) -> A, F: Fn(A, usize) -> T>(
    fmt: Fmt,
    bytes: Seq<u8>,
    offset: u32,
    size: u32,
    none: A,
    plus: P,
    finish: F,
    mono: Seq<T>,
) -> bool {
    let (start, frames) = window_of(fmt, bytes, offset, size);
    &&& mono.len() == frames
    &&& forall|f: int|
        0 <= f < frames ==> is_mono(
            plus,
            none,
            finish,
            #[trigger] frame_of(
                chunk_samples(fmt, bytes.skip(start), frames),
                fmt.channels as int,
                f,
            ),
            mono[f],
        )
}

/// Moves a buffer into the ring, as mono samples at the host chain's rate. Says
/// whether the loop is to quit: once the worker is told to stop.
pub fn take_chunk<
    A: Copy,
    T: Copy,
    P: Fn(A, Raw) -> A,
    F: Fn(A, usize) -> T,
    B: Copy,
    Q: Fn(B, T) -> B,
    M: Fn(B, u32) -> T,
    D: Fn(T, (T, T)) -> T,
>(
    stopped: bool,
    fmt: Option<Fmt>,
    bytes: Option<&[u8]>,
    offset: u32,
    size: u32,
    silence: T,
    no_sum: A,
    plus: &P,
    finish: &F,
    mono: &mut Vec<T>,
    converter: &mut Option<SincResampler<T>>,
    scratch: &mut Vec<T>,
    ring: &mut AudioRing<T>,
    no_group: B,
    join: &Q,
    mean: &M,
    tap: &D,
) -> (quit: bool)
    requires
        fmt is Some ==> is_readable(fmt->0),
        old(ring).wf(),
        is_ready(*old(converter)),
        forall|a: A, x: Raw| call_requires(*plus, (a, x)),
        forall|a: A, n: usize| call_requires(*finish, (a, n)),
        forall|b: B, x: T| call_requires(*join, (b, x)),
        forall|b: B, n: u32| call_requires(*mean, (b, n)),
        forall|a: T, p: (T, T)| call_requires(*tap, (a, p)),
    ensures
        quit == stopped,
        !is_heard(stopped, fmt, bytes, offset, size) ==> *final(ring) == *old(ring),
        !is_heard(stopped, fmt, bytes, offset, size) ==> *final(converter) == *old(converter),
        is_heard(stopped, fmt, bytes, offset, size) ==> {
            &&& chunk_sound(
                fmt->0,
                bytes->0@,
                offset,
                size,
                no_sum,
                *plus,
                *finish,
                final(mono)@,
            )
            &&& delivered(
                (*old(converter), *old(ring)),
                (*final(converter), *final(ring)),
                final(mono)@,
                final(scratch)@,
                no_group,
                *join,
                *mean,
                *tap,
            )
        },
{
    if stopped {
        return true;
    }
    let heard: Option<(Fmt, &[u8])> = match (fmt, bytes) {
        (Some(f), Some(b)) => Some((f, b)),
        _ => None,
    };
    match heard {
        None => {},
        Some((f, b)) => {
            chunk_mono(&f, b, offset, size, silence, no_sum, plus, finish, mono);
            if mono.len() > 0 {
                deliver(converter, mono.as_slice(), scratch, ring, no_group, join, mean, tap);
            }
        },
    }
    false
}

/// Turns a buffer into mono samples.
pub fn chunk_mono<A: Copy, T: Copy, P: Fn(A, Raw) -> A, F: Fn(A, usize) -> T>(
    fmt: &Fmt,
    bytes: &[u8],
    offset: u32,
    size: u32,
    silence: T,
    none: A,
    plus: &P,
    finish: &F,
    mono: &mut Vec<T>,
)
    requires
        is_readable(*fmt),
        forall|a: A, x: Raw| call_requires(*plus, (a, x)),
        forall|a: A, n: usize| call_requires(*finish, (a, n)),
    ensures
        chunk_sound(*fmt, bytes@, offset, size, none, *plus, *finish, final(mono)@),
{
    let (start, frames) = chunk_window(bytes.len(), offset, size, fmt);
    let tail: &[u8] = vstd::slice::slice_subrange(bytes, start, bytes.len());
    proof {
        let n = frames as int;
        let ch = fmt.channels as int;
        let w = width(kind_of(fmt.kind == 0, bits_of(fmt.kind)));
        assert(w == bits_of(fmt.kind) as int / 8);
        assert(n * (ch * w) == n * ch * w) by (nonlinear_arith);
        assert(n * ch <= n * ch * w) by (nonlinear_arith)
            requires
                n >= 0,
                ch >= 1,
                w >= 1,
        {
        }
        assert(tail@ == bytes@.skip(start as int));
    }
    mono.clear();
    convert_interleaved_to_mono(
        tail,
        frames,
        fmt.channels,
        fmt.bits(),
        fmt.kind == 0,
        none,
        plus,
        finish,
        silence,
        mono,
    );
    assert(forall|f: int| 0 <= f < frames ==> #[trigger] mono@[f] == mono@[0 + f]);
}

/// A format that was negotiated has a rate, a channel and a known kind.
pub proof fn law_negotiated_formats_are_sound(ids: SpaIds, bytes: Seq<u8>)
    ensures
        format_of(ids, bytes) matches Some(f) ==> f.rate > 0 && f.channels >= 1,
{
}

} // verus!
