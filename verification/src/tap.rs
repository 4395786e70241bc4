//! Process taps on macOS: the order of the worker's calls, what it says when
//! one fails, its buffers, and how it lets go of what it holds.
use crate::capture::{deliver, delivered, is_ready};
use crate::downmix::{
    channel_count, column, downmix_interleaved, downmix_planar, frame_of, is_mono,
};
use crate::resample::SincResampler;
use crate::ring::AudioRing;
use crate::text::{file_name, file_name_of, lossy_text, payload_string, push_signed, signed_decimal};
use vstd::prelude::*;
use vstd::string::StringExecFns;

verus! {

/// Samples are floats.
pub const FLAG_IS_FLOAT: u32 = 0x1;

/// Each channel has a buffer of its own.
pub const FLAG_IS_NON_INTERLEAVED: u32 = 0x4;

/// The number of a four-character code, first character highest.
pub fn fourcc(s: &[u8; 4]) -> (r: u32)
    ensures
        r == 0x100_0000 * s@[0] + 0x1_0000 * s@[1] + 0x100 * s@[2] + s@[3],
{
    0x100_0000 * s[0] as u32 + 0x1_0000 * s[1] as u32 + 0x100 * s[2] as u32 + s[3] as u32
}

/// The process that the workspace calls frontmost.
pub fn frontmost_pid(pid: i64) -> (r: Option<u32>)
    ensures
        r == if pid > 0 {
            Some(pid as u32)
        } else {
            None::<u32>
        },
{
    if pid > 0 {
        Some(
            #[verifier::truncate]
            (pid as u32),
        )
    } else {
        None
    }
}

/// A process's name, where the system wrote `n` bytes of its path into `buf`.
pub fn path_name(buf: &[u8], n: i32) -> (r: String)
    requires
        n <= buf@.len(),
    ensures
        r@ == if n > 0 {
            file_name_of(lossy_text(buf@.take(n as int)), false)
        } else {
            Seq::empty()
        },
{
    if n <= 0 {
        return String::new();
    }
    let _size: usize = buf.len();
    let path: &[u8] = vstd::slice::slice_subrange(buf, 0, n as usize);
    assert(path@ == buf@.take(n as int));
    let text = payload_string(path);
    file_name(text.as_str(), false)
}

/// What the worker says where the system lacks a function.
pub fn missing_symbol(name: &str) -> (r: String)
    ensures
        r@ == "系统缺少 "@ + name@ + "：需要 macOS 14.4 或更新版本"@,
{
    let mut out = "系统缺少 ".to_string();
    out.append(name);
    out.append("：需要 macOS 14.4 或更新版本");
    out
}

/// The function that is missing, of those that the worker needs, in the order
/// in which it looks them up.
pub open spec fn first_missing(
    create_description: bool,
    set_process_ids: bool,
    create_tap: bool,
    destroy_tap: bool,
) -> Option<Seq<char>> {
    if !create_description {
        Some("CATapDescriptionCreate"@)
    } else if !set_process_ids {
        Some("CATapDescriptionSetProcessIDs"@)
    } else if !create_tap {
        Some("AudioHardwareCreateProcessTap"@)
    } else if !destroy_tap {
        Some("AudioHardwareDestroyProcessTap"@)
    } else {
        None
    }
}

/// Whether the system has every function that the worker needs; what the worker
/// says of the first that is missing.
pub fn resolved(
    create_description: bool,
    set_process_ids: bool,
    create_tap: bool,
    destroy_tap: bool,
) -> (r: Result<(), String>)
    ensures
        match first_missing(create_description, set_process_ids, create_tap, destroy_tap) {
            None => r is Ok,
            Some(name) => r is Err && r->Err_0@ == "系统缺少 "@ + name
                + "：需要 macOS 14.4 或更新版本"@,
        },
{
    if !create_description {
        Err(missing_symbol("CATapDescriptionCreate"))
    } else if !set_process_ids {
        Err(missing_symbol("CATapDescriptionSetProcessIDs"))
    } else if !create_tap {
        Err(missing_symbol("AudioHardwareCreateProcessTap"))
    } else if !destroy_tap {
        Err(missing_symbol("AudioHardwareDestroyProcessTap"))
    } else {
        Ok(())
    }
}

// ───────────────────────────────── format ──────────────────────────────────
/// A tap's stream.
#[derive(Clone, Copy, PartialEq, Eq, Structural, Debug)]
pub struct TapFormat {
    pub rate: u32,
    pub channels: usize,
    /// One buffer holds all channels, frame by frame.
    pub interleaved: bool,
}

/// Whether a stream's samples can be read: 32-bit floats.
pub open spec fn is_float32(flags: u32, bits: u32) -> bool {
    flags & FLAG_IS_FLOAT != 0 && bits == 32
}

/// Looks at a tap's stream format.
pub fn tap_format(rate: u32, channels: u32, flags: u32, bits: u32) -> (r: Result<
    TapFormat,
    String,
>)
    ensures
        r is Ok <==> is_float32(flags, bits),
        r matches Ok(f) ==> f.rate == rate && f.channels == channel_count(channels as usize)
            && f.interleaved == (flags & FLAG_IS_NON_INTERLEAVED == 0),
        r matches Err(e) ==> e@ == "tap 流格式非 Float32（不支持）"@,
{
    if flags & FLAG_IS_FLOAT == 0 || bits != 32 {
        return Err("tap 流格式非 Float32（不支持）".to_string());
    }
    Ok(
        TapFormat {
            rate,
            channels: if channels < 1 {
                1
            } else {
                channels as usize
            },
            interleaved: flags & FLAG_IS_NON_INTERLEAVED == 0,
        },
    )
}

// ─────────────────────────────── opening calls ─────────────────────────────
/// The call that the worker makes next.
#[derive(Clone, Copy, PartialEq, Eq, Structural, Debug)]
pub enum Step {
    MakeDescription,
    MakeNumber,
    MakeArray,
    CreateTap,
    /// Read the format in the input scope.
    ReadInput,
    /// Read the format in the global scope, where some taps have it.
    ReadGlobal,
    CreateProc,
    StartDevice,
    /// Samples flow.
    Run,
}

/// The call after one that succeeded.
pub open spec fn after(step: Step) -> Step {
    match step {
        Step::MakeDescription => Step::MakeNumber,
        Step::MakeNumber => Step::MakeArray,
        Step::MakeArray => Step::CreateTap,
        Step::CreateTap => Step::ReadInput,
        Step::ReadInput => Step::CreateProc,
        Step::ReadGlobal => Step::CreateProc,
        Step::CreateProc => Step::StartDevice,
        Step::StartDevice => Step::Run,
        Step::Run => Step::Run,
    }
}

/// What the worker says of a call that failed with `status`; `earlier` is the
/// status of the call before.
pub open spec fn complaint(step: Step, status: i32, earlier: i32) -> Seq<char> {
    match step {
        Step::MakeDescription => "CATapDescriptionCreate 失败"@,
        Step::MakeNumber => "CFNumberCreate 失败"@,
        Step::MakeArray => "CFArrayCreate 失败"@,
        Step::CreateTap => "AudioHardwareCreateProcessTap 失败 (OSStatus "@ + signed_decimal(
            status as int,
        ) + ")：目标进程可能已退出或拒绝被捕获"@,
        Step::ReadInput | Step::ReadGlobal => "读取 tap 流格式失败 (OSStatus "@ + signed_decimal(
            earlier as int,
        ) + "/"@ + signed_decimal(status as int) + ")"@,
        Step::CreateProc => "AudioDeviceCreateIOProcID 失败 (OSStatus "@ + signed_decimal(
            status as int,
        ) + ")"@,
        Step::StartDevice | Step::Run => "AudioDeviceStart 失败 (OSStatus "@ + signed_decimal(
            status as int,
        ) + ")"@,
    }
}

fn complain(step: Step, status: i32, earlier: i32) -> (r: String)
    ensures
        r@ == complaint(step, status, earlier),
{
    let mut out = match step {
        Step::MakeDescription => {
            return "CATapDescriptionCreate 失败".to_string();
        },
        Step::MakeNumber => {
            return "CFNumberCreate 失败".to_string();
        },
        Step::MakeArray => {
            return "CFArrayCreate 失败".to_string();
        },
        Step::CreateTap => "AudioHardwareCreateProcessTap 失败 (OSStatus ".to_string(),
        Step::ReadInput | Step::ReadGlobal => "读取 tap 流格式失败 (OSStatus ".to_string(),
        Step::CreateProc => "AudioDeviceCreateIOProcID 失败 (OSStatus ".to_string(),
        Step::StartDevice | Step::Run => "AudioDeviceStart 失败 (OSStatus ".to_string(),
    };
    if step == Step::ReadInput || step == Step::ReadGlobal {
        push_signed(&mut out, earlier);
        out.append("/");
    }
    push_signed(&mut out, status);
    if step == Step::CreateTap {
        out.append(")：目标进程可能已退出或拒绝被捕获");
    } else {
        out.append(")");
    }
    out
}

/// Where a call's outcome leads: on, from the input scope to the global one, or
/// to the worker's end.
pub fn advance(step: Step, ok: bool, status: i32, earlier: i32) -> (r: Result<Step, String>)
    ensures
        r is Ok <==> ok || step == Step::ReadInput,
        r matches Ok(s) ==> s == if ok {
            after(step)
        } else {
            Step::ReadGlobal
        },
        r matches Err(e) ==> e@ == complaint(step, status, earlier),
{
    if ok {
        Ok(
            match step {
                Step::MakeDescription => Step::MakeNumber,
                Step::MakeNumber => Step::MakeArray,
                Step::MakeArray => Step::CreateTap,
                Step::CreateTap => Step::ReadInput,
                Step::ReadInput => Step::CreateProc,
                Step::ReadGlobal => Step::CreateProc,
                Step::CreateProc => Step::StartDevice,
                Step::StartDevice => Step::Run,
                Step::Run => Step::Run,
            },
        )
    } else if step == Step::ReadInput {
        Ok(Step::ReadGlobal)
    } else {
        Err(complain(step, status, earlier))
    }
}

// ───────────────────────────────── buffers ─────────────────────────────────
/// The frames in a buffer of that many bytes.
pub open spec fn frames_in(fmt: TapFormat, bytes: u32) -> int {
    if fmt.interleaved {
        (bytes as int / 4) / channel_count(fmt.channels)
    } else {
        bytes as int / 4
    }
}

/// The frames in a buffer of that many bytes.
pub fn tap_frames(fmt: &TapFormat, bytes: u32) -> (r: usize)
    ensures
        r == frames_in(*fmt, bytes),
{
    let samples: usize = (bytes / 4) as usize;
    if fmt.interleaved {
        samples / (if fmt.channels < 1 {
            1
        } else {
            fmt.channels
        })
    } else {
        samples
    }
}

/// Whether a callback brings anything that can be heard: `first` is the size of
/// the first buffer, where it is there.
pub open spec fn is_heard(stopped: bool, fmt: TapFormat, first: Option<u32>) -> bool {
    !stopped && first is Some && frames_in(fmt, first->0) > 0
}

/// Whether the buffers hold the frames that their sizes claim.
pub open spec fn buffers_fit<X>(fmt: TapFormat, first: Option<u32>, planes: Seq<Vec<X>>) -> bool {
    first is Some && fmt.interleaved ==> planes.len() > 0 && frames_in(fmt, first->0)
        * channel_count(fmt.channels) <= planes[0]@.len()
}

/// `mono` is what the buffers sound like: of an interleaved stream the first
/// one is heard, else each is a channel.
pub open spec fn tap_sound<X, A, T, P: Fn(A, X) -> A, F: Fn(A, usize) -> T>(
    fmt: TapFormat,
    frames: int,
    planes: Seq<Vec<X>>,
    zero: X,
    none: A,
    plus: P,
    finish: F,
    mono: Seq<T>,
) -> bool {
    &&& mono.len() == frames
    &&& fmt.interleaved ==> forall|f: int|
        0 <= f < frames ==> is_mono(
            plus,
            none,
            finish,
            #[trigger] frame_of(planes[0]@, channel_count(fmt.channels), f),
            mono[f],
        )
    &&& !fmt.interleaved ==> forall|f: int|
        0 <= f < frames ==> is_mono(
            plus,
            none,
            finish,
            #[trigger] column(planes, zero, f),
            mono[f],
        )
}

/// Turns the buffers of one callback into mono samples.
pub fn tap_mono<X: Copy, A: Copy, T: Copy, P: Fn(A, X) -> A, F: Fn(A, usize) -> T>(
    fmt: &TapFormat,
    frames: usize,
    planes: &Vec<Vec<X>>,
    zero: X,
    none: A,
    plus: &P,
    finish: &F,
    mono: &mut Vec<T>,
)
    requires
        fmt.interleaved ==> planes@.len() > 0 && frames * channel_count(fmt.channels)
            <= planes@[0]@.len(),
        forall|a: A, x: X| call_requires(*plus, (a, x)),
        forall|a: A, n: usize| call_requires(*finish, (a, n)),
    ensures
        tap_sound(*fmt, frames as int, planes@, zero, none, *plus, *finish, final(mono)@),
{
    mono.clear();
    if fmt.interleaved {
        let ch: usize = if fmt.channels < 1 {
            1
        } else {
            fmt.channels
        };
        downmix_interleaved(planes[0].as_slice(), frames, ch, none, plus, finish, mono);
    } else {
        downmix_planar(planes, frames, zero, none, plus, finish, mono);
    }
    assert(forall|f: int| 0 <= f < frames ==> #[trigger] mono@[f] == mono@[0 + f]);
}

/// Moves the buffers of one callback into the ring, as mono samples at the host
/// chain's rate. `planes` are the buffers that are there; `first` is the size of
/// the first buffer, where it is one of them.
pub fn take_buffers<
    X: Copy,
    A: Copy,
    T: Copy,
    P: Fn(A, X) -> A,
    F: Fn(A, usize) -> T,
    B: Copy,
    Q: Fn(B, T) -> B,
    M: Fn(B, u32) -> T,
    D: Fn(T, (T, T)) -> T,
>(
    stopped: bool,
    fmt: &TapFormat,
    first: Option<u32>,
    planes: &Vec<Vec<X>>,
    zero: X,
    no_sum: A,
    plus: &P,
    finish: &F,
    mono: &mut Vec<T>,
    converter: &mut Option<SincResampler<T>>,
    scratch: &mut Vec<T>,
    ring: &mut AudioRing<T>,
    no_group: B,
    join: &Q,
    mean: &M,
    tap: &D,
)
    requires
        buffers_fit(*fmt, first, planes@),
        old(ring).wf(),
        is_ready(*old(converter)),
        forall|a: A, x: X| call_requires(*plus, (a, x)),
        forall|a: A, n: usize| call_requires(*finish, (a, n)),
        forall|b: B, x: T| call_requires(*join, (b, x)),
        forall|b: B, n: u32| call_requires(*mean, (b, n)),
        forall|a: T, p: (T, T)| call_requires(*tap, (a, p)),
    ensures
        !is_heard(stopped, *fmt, first) ==> *final(ring) == *old(ring),
        !is_heard(stopped, *fmt, first) ==> *final(converter) == *old(converter),
        is_heard(stopped, *fmt, first) ==> {
            &&& tap_sound(
                *fmt,
                frames_in(*fmt, first->0),
                planes@,
                zero,
                no_sum,
                *plus,
                *finish,
                final(mono)@,
            )
            &&& delivered(
                (*old(converter), *old(ring)),
                (*final(converter), *final(ring)),
                final(mono)@,
                final(scratch)@,
                no_group,
                *join,
                *mean,
                *tap,
            )
        },
{
    if stopped {
        return;
    }
    let frames: usize = match first {
        Some(bytes) => tap_frames(fmt, bytes),
        None => 0,
    };
    if frames == 0 {
        return;
    }
    tap_mono(fmt, frames, planes, zero, no_sum, plus, finish, mono);
    deliver(converter, mono.as_slice(), scratch, ring, no_group, join, mean, tap);
}

// ───────────────────────────────── teardown ────────────────────────────────
/// A step of the worker's end.
#[derive(Clone, Copy, PartialEq, Eq, Structural, Debug)]
pub enum Undo {
    StopDevice,
    DestroyProc,
    FreeState,
    DestroyTap,
}

/// How the worker lets go of what it holds when the call at `step` was its
/// last: the callback goes before the state that it reads, the tap last.
pub open spec fn undone(step: Step) -> Seq<Undo> {
    match step {
        Step::MakeDescription
        | Step::MakeNumber
        | Step::MakeArray
        | Step::CreateTap => Seq::empty(),
        Step::ReadInput | Step::ReadGlobal => seq![Undo::DestroyTap],
        Step::CreateProc => seq![Undo::FreeState, Undo::DestroyTap],
        Step::StartDevice => seq![Undo::DestroyProc, Undo::FreeState, Undo::DestroyTap],
        Step::Run => seq![Undo::StopDevice, Undo::DestroyProc, Undo::FreeState, Undo::DestroyTap],
    }
}

/// How the worker lets go of what it holds when the call at `step` was its
/// last.
pub fn teardown(step: Step) -> (r: Vec<Undo>)
    ensures
        r@ == undone(step),
{
    let mut out: Vec<Undo> = Vec::new();
    if step == Step::Run {
        out.push(Undo::StopDevice);
    }
    if step == Step::Run || step == Step::StartDevice {
        out.push(Undo::DestroyProc);
    }
    if step == Step::Run || step == Step::StartDevice || step == Step::CreateProc {
        out.push(Undo::FreeState);
    }
    if step == Step::Run || step == Step::StartDevice || step == Step::CreateProc || step
        == Step::ReadInput || step == Step::ReadGlobal {
        out.push(Undo::DestroyTap);
    }
    out
}

/// The callback's state is freed only after the callback is gone.
pub proof fn law_the_state_outlives_the_callback(step: Step, i: int, j: int)
    requires
        0 <= i < undone(step).len(),
        0 <= j < undone(step).len(),
        undone(step)[i] == Undo::FreeState,
        undone(step)[j] == Undo::StopDevice || undone(step)[j] == Undo::DestroyProc,
    ensures
        j < i,
{
}

/// A tap that was created is destroyed, and last.
pub proof fn law_the_tap_goes_last(step: Step)
    requires
        undone(step).len() > 0,
    ensures
        undone(step).last() == Undo::DestroyTap,
{
}

/// A step further on lets go of all that the step before would have, after
/// what the step itself added.
pub proof fn law_opening_only_acquires(step: Step)
    ensures
        undone(after(step)).len() >= undone(step).len(),
        undone(after(step)).skip(undone(after(step)).len() - undone(step).len()) == undone(step),
{
}

} // verus!
