//! Process loopback on Windows: the order of the worker's calls, what it says
//! when one fails, its packets, and how it lets go of what it holds.
use crate::capture::{deliver, delivered, is_ready, WorkerShared};
use crate::downmix::{
    channel_count, convert_interleaved_to_mono, frame_of, is_mono, kind_of, raw_samples, width, Raw,
    SampleKind,
};
use crate::resample::SincResampler;
use crate::ring::AudioRing;
use crate::text::{decimal, hex_digits, push_decimal, push_hex32};
use crate::TARGET_RATE;
use vstd::prelude::*;
use vstd::string::StringExecFns;

verus! {

/// The engine-side buffer, in units of 100 ns: one second.
pub const BUFFER_DURATION_HNS: i64 = 10_000_000;

/// How long the worker waits for the activation.
pub const ACTIVATE_TIMEOUT_MS: u32 = 5_000;

/// How long the worker waits for a packet before it looks at the stop flag and
/// at the target again.
pub const EVENT_WAIT_MS: u32 = 100;

/// The right to wait for a process to end.
pub const SYNCHRONIZE: u32 = 0x0010_0000;

/// The packet does not follow on the one before.
pub const FLAG_DISCONTINUITY: u32 = 1;

/// The packet is silent; what it holds is undefined.
pub const FLAG_SILENT: u32 = 2;

/// The process of the foreground window; none where there is no window or the
/// window has no process.
pub fn window_pid(window: bool, pid: u32) -> (r: Option<u32>)
    ensures
        r == if window && pid != 0 {
            Some(pid)
        } else {
            None::<u32>
        },
{
    if window && pid != 0 {
        Some(pid)
    } else {
        None
    }
}

// ───────────────────────────────── formats ─────────────────────────────────
/// A capture format. The engine resamples and remixes into whichever the caller
/// names.
#[derive(Clone, Copy, PartialEq, Eq, Structural, Debug)]
pub struct MixFormat {
    pub rate: u32,
    pub channels: u16,
    pub bits: u16,
    pub float: bool,
}

/// The format to ask for first: the host chain's rate, stereo, 32-bit float.
pub fn first_format() -> (r: MixFormat)
    ensures
        r == (MixFormat { rate: TARGET_RATE, channels: 2, bits: 32, float: true }),
{
    MixFormat { rate: TARGET_RATE, channels: 2, bits: 32, float: true }
}

/// The format to fall back to: 44.1 kHz, stereo, 16-bit integer.
pub fn second_format() -> (r: MixFormat)
    ensures
        r == (MixFormat { rate: 44_100, channels: 2, bits: 16, float: false }),
{
    MixFormat { rate: 44_100, channels: 2, bits: 16, float: false }
}

/// A format as the engine takes it.
#[derive(Clone, Copy, PartialEq, Eq, Structural, Debug)]
pub struct WaveFormat {
    /// 3 for floats, 1 for integers.
    pub tag: u16,
    pub channels: u16,
    pub rate: u32,
    pub block_align: u16,
    pub avg_bytes: u32,
    pub bits: u16,
}

/// A format as the engine takes it.
pub fn wave_format(f: &MixFormat) -> (r: WaveFormat)
    requires
        f.channels * (f.bits / 8) <= u16::MAX,
        f.rate * (f.channels * (f.bits / 8)) <= u32::MAX,
    ensures
        r.tag == if f.float {
            3u16
        } else {
            1u16
        },
        r.channels == f.channels,
        r.rate == f.rate,
        r.bits == f.bits,
        r.block_align == f.channels * (f.bits / 8),
        r.avg_bytes == f.rate * r.block_align,
{
    let block_align: u16 = f.channels * (f.bits / 8);
    WaveFormat {
        tag: if f.float {
            3
        } else {
            1
        },
        channels: f.channels,
        rate: f.rate,
        block_align,
        avg_bytes: f.rate * block_align as u32,
        bits: f.bits,
    }
}

// ─────────────────────────────── opening calls ─────────────────────────────
/// The call that the worker makes next.
#[derive(Clone, Copy, PartialEq, Eq, Structural, Debug)]
pub enum Step {
    InitCom,
    OpenTarget,
    CreateEvent,
    Activate,
    /// Wait for the activation: see `awaited`.
    AwaitActivation,
    FetchResult,
    /// Look at the activation's result: see `activation`.
    CheckResult,
    CastClient,
    /// Open the stream in the first format.
    InitFirst,
    /// Open the stream in the second format.
    InitSecond,
    CreateBufferEvent,
    SetEvent,
    GetService,
    Start,
    /// Samples flow.
    Packets,
}

/// The call after one that succeeded.
pub open spec fn after(step: Step) -> Step {
    match step {
        Step::InitCom => Step::OpenTarget,
        Step::OpenTarget => Step::CreateEvent,
        Step::CreateEvent => Step::Activate,
        Step::Activate => Step::AwaitActivation,
        Step::AwaitActivation => Step::FetchResult,
        Step::FetchResult => Step::CheckResult,
        Step::CheckResult => Step::CastClient,
        Step::CastClient => Step::InitFirst,
        Step::InitFirst => Step::CreateBufferEvent,
        Step::InitSecond => Step::CreateBufferEvent,
        Step::CreateBufferEvent => Step::SetEvent,
        Step::SetEvent => Step::GetService,
        Step::GetService => Step::Start,
        Step::Start => Step::Packets,
        Step::Packets => Step::Packets,
    }
}

/// What the worker says of a call that failed with `error`.
pub open spec fn complaint(step: Step, pid: u32, error: Seq<char>) -> Seq<char> {
    match step {
        Step::InitCom => "CoInitializeEx failed: "@ + error,
        Step::OpenTarget => "OpenProcess(pid="@ + decimal(pid as nat) + ") 失败: "@ + error
            + "。若目标以管理员权限运行，MicYou 也需以管理员运行"@,
        Step::CreateEvent => "CreateEventW: "@ + error,
        Step::Activate => "ActivateAudioInterfaceAsync: "@ + error,
        Step::FetchResult => "GetActivateResult: "@ + error,
        Step::CastClient => "cast IAudioClient: "@ + error,
        Step::InitFirst | Step::InitSecond =>
            "IAudioClient::Initialize 对 48kHz-float32 与 44.1kHz-PCM16 均失败（音频引擎异常）"@,
        Step::CreateBufferEvent => "CreateEventW(buffer): "@ + error,
        Step::SetEvent => "SetEventHandle: "@ + error,
        Step::GetService => "GetService(IAudioCaptureClient): "@ + error,
        Step::Start => "IAudioClient::Start: "@ + error,
        Step::AwaitActivation | Step::CheckResult | Step::Packets => error,
    }
}

/// Where a call's outcome leads: on, from a refused first format to the second,
/// or to the worker's end.
pub open spec fn advanced(
    step: Step,
    outcome: Result<(), Seq<char>>,
    pid: u32,
) -> Result<Step, Seq<char>> {
    match outcome {
        Ok(_) => Ok(after(step)),
        Err(e) => if step == Step::InitFirst {
            Ok(Step::InitSecond)
        } else {
            Err(complaint(step, pid, e))
        },
    }
}

/// A call's outcome, as a value.
pub open spec fn outcome_of(outcome: Result<(), String>) -> Result<(), Seq<char>> {
    match outcome {
        Ok(_) => Ok(()),
        Err(e) => Err(e@),
    }
}

fn prefixed(prefix: &str, error: &str) -> (r: String)
    ensures
        r@ == prefix@ + error@,
{
    let mut out = prefix.to_string();
    out.append(error);
    out
}

fn complain(step: Step, pid: u32, error: String) -> (r: String)
    ensures
        r@ == complaint(step, pid, error@),
{
    let e: &str = error.as_str();
    match step {
        Step::InitCom => prefixed("CoInitializeEx failed: ", e),
        Step::OpenTarget => {
            let mut out = "OpenProcess(pid=".to_string();
            push_decimal(&mut out, pid as u128);
            out.append(") 失败: ");
            out.append(e);
            out.append("。若目标以管理员权限运行，MicYou 也需以管理员运行");
            out
        },
        Step::CreateEvent => prefixed("CreateEventW: ", e),
        Step::Activate => prefixed("ActivateAudioInterfaceAsync: ", e),
        Step::FetchResult => prefixed("GetActivateResult: ", e),
        Step::CastClient => prefixed("cast IAudioClient: ", e),
        Step::InitFirst
        | Step::InitSecond =>
            "IAudioClient::Initialize 对 48kHz-float32 与 44.1kHz-PCM16 均失败（音频引擎异常）".to_string(),
        Step::CreateBufferEvent => prefixed("CreateEventW(buffer): ", e),
        Step::SetEvent => prefixed("SetEventHandle: ", e),
        Step::GetService => prefixed("GetService(IAudioCaptureClient): ", e),
        Step::Start => prefixed("IAudioClient::Start: ", e),
        Step::AwaitActivation | Step::CheckResult | Step::Packets => error,
    }
}

/// Where a call's outcome leads. An error is the description of what failed.
pub fn advance(step: Step, outcome: Result<(), String>, pid: u32) -> (r: Result<Step, String>)
    ensures
        r matches Ok(s) ==> advanced(step, outcome_of(outcome), pid) == Ok::<Step, Seq<char>>(s),
        r matches Err(e) ==> advanced(step, outcome_of(outcome), pid) == Err::<Step, Seq<char>>(
            e@,
        ),
{
    match outcome {
        Ok(_) => Ok(
            match step {
                Step::InitCom => Step::OpenTarget,
                Step::OpenTarget => Step::CreateEvent,
                Step::CreateEvent => Step::Activate,
                Step::Activate => Step::AwaitActivation,
                Step::AwaitActivation => Step::FetchResult,
                Step::FetchResult => Step::CheckResult,
                Step::CheckResult => Step::CastClient,
                Step::CastClient => Step::InitFirst,
                Step::InitFirst => Step::CreateBufferEvent,
                Step::InitSecond => Step::CreateBufferEvent,
                Step::CreateBufferEvent => Step::SetEvent,
                Step::SetEvent => Step::GetService,
                Step::GetService => Step::Start,
                Step::Start => Step::Packets,
                Step::Packets => Step::Packets,
            },
        ),
        Err(e) => {
            if step == Step::InitFirst {
                Ok(Step::InitSecond)
            } else {
                Err(complain(step, pid, e))
            }
        },
    }
}

/// How a wait ended.
pub enum Wait {
    Signaled,
    TimedOut,
    /// In another way, by its description.
    Other(String),
}

/// Whether the activation was signalled in time.
pub fn awaited(wait: Wait) -> (r: Result<(), String>)
    ensures
        r is Ok <==> wait is Signaled,
        wait is TimedOut ==> r->Err_0@ == "音频引擎激活超时（5s）"@,
        wait matches Wait::Other(e) ==> r->Err_0@ == "等待激活完成失败: "@ + e@,
{
    match wait {
        Wait::Signaled => Ok(()),
        Wait::TimedOut => Err("音频引擎激活超时（5s）".to_string()),
        Wait::Other(e) => Err(prefixed("等待激活完成失败: ", e.as_str())),
    }
}

/// What a failed activation's code hints at.
pub open spec fn hint_of(code: u32) -> Seq<char> {
    if code == 0x8007_0005 {
        "拒绝访问：目标以更高权限运行（试试以管理员身份运行 MicYou），或为受 DRM 保护的内容"@
    } else if code == 0x8007_0057 {
        "激活参数被拒绝（系统音频服务异常？）"@
    } else if code == 0x8007_0490 {
        "音频引擎未找到目标进程的音频端点（稍后重试；若持续失败请确认系统为 Windows 10 2004 / build 19041 及以上）"@
    } else if code == 0x8889_000b {
        "端点类型错误（系统不支持进程环回？需 Windows 10 2004+）"@
    } else {
        "未知原因"@
    }
}

/// What the worker says of a failed activation.
pub open spec fn activation_failure(code: u32, app: Seq<char>) -> Seq<char> {
    "进程环回激活失败 (HRESULT "@ + seq!['0', 'x'] + hex_digits(code as nat, 8) + ", "@ + app
        + "): "@ + hint_of(code)
}

/// A result code says failure in its highest bit.
pub open spec fn failed(code: u32) -> bool {
    code >= 0x8000_0000
}

/// Looks at an activation's result: its code, and whether it came with an
/// interface.
pub fn activation(code: u32, interface: bool, app: &str) -> (r: Result<(), String>)
    ensures
        r is Ok <==> !failed(code) && interface,
        failed(code) ==> r->Err_0@ == activation_failure(code, app@),
        !failed(code) && !interface ==> r->Err_0@ == "激活结果为空"@,
{
    if code >= 0x8000_0000 {
        let mut out = "进程环回激活失败 (HRESULT ".to_string();
        push_hex32(&mut out, code);
        out.append(", ");
        out.append(app);
        out.append("): ");
        if code == 0x8007_0005 {
            out.append(
                "拒绝访问：目标以更高权限运行（试试以管理员身份运行 MicYou），或为受 DRM 保护的内容",
            );
        } else if code == 0x8007_0057 {
            out.append("激活参数被拒绝（系统音频服务异常？）");
        } else if code == 0x8007_0490 {
            out.append(
                "音频引擎未找到目标进程的音频端点（稍后重试；若持续失败请确认系统为 Windows 10 2004 / build 19041 及以上）",
            );
        } else if code == 0x8889_000b {
            out.append("端点类型错误（系统不支持进程环回？需 Windows 10 2004+）");
        } else {
            out.append("未知原因");
        }
        Err(out)
    } else if interface {
        Ok(())
    } else {
        Err("激活结果为空".to_string())
    }
}

// ───────────────────────────────── packets ─────────────────────────────────
/// Whether packets are to be drained after a wait for them.
pub fn after_wait(wait: Wait) -> (r: Result<bool, String>)
    ensures
        wait is Signaled ==> r == Ok::<bool, String>(true),
        wait is TimedOut ==> r == Ok::<bool, String>(false),
        wait matches Wait::Other(e) ==> r is Err && r->Err_0@ == "WaitForSingleObject: "@ + e@,
{
    match wait {
        Wait::Signaled => Ok(true),
        Wait::TimedOut => Ok(false),
        Wait::Other(e) => Err(prefixed("WaitForSingleObject: ", e.as_str())),
    }
}

/// The calls on a packet.
#[derive(Clone, Copy, PartialEq, Eq, Structural, Debug)]
pub enum PacketCall {
    Size,
    Take,
    Release,
}

/// What the worker says of a packet call that failed.
pub fn packet_complaint(call: PacketCall, error: &str) -> (r: String)
    ensures
        r@ == "采集循环错误: "@ + (match call {
            PacketCall::Size => "GetNextPacketSize: "@,
            PacketCall::Take => "GetBuffer: "@,
            PacketCall::Release => "ReleaseBuffer: "@,
        }) + error@,
{
    let mut out = "采集循环错误: ".to_string();
    match call {
        PacketCall::Size => out.append("GetNextPacketSize: "),
        PacketCall::Take => out.append("GetBuffer: "),
        PacketCall::Release => out.append("ReleaseBuffer: "),
    }
    out.append(error);
    out
}

/// Looks at the target after the packets. Says whether the worker is to leave.
pub fn after_packets(exited: bool, shared: &mut WorkerShared) -> (r: bool)
    ensures
        r == exited,
        *final(shared) == (WorkerShared {
            target_exited: exited || old(shared).target_exited,
            ..*old(shared)
        }),
{
    if exited {
        shared.target_exited = true;
    }
    exited
}

/// Whether a packet's payload is to be read: it is there, and not marked
/// silent.
pub open spec fn is_heard(src: Option<&[u8]>, flags: u32) -> bool {
    src is Some && flags & FLAG_SILENT == 0
}

/// `mono` is what a packet of `frames` frames sounds like.
pub open spec fn packet_sound<A, R, P: Fn(A, Raw) -> A, M: Fn(A, usize) -> R>(
    src: Option<&[u8]>,
    frames: u32,
    flags: u32,
    fmt: MixFormat,
    none: A,
    plus: P,
    finish: M,
    silence: R,
    mono: Seq<R>,
) -> bool {
    &&& mono.len() == frames
    &&& if is_heard(src, flags) && kind_of(fmt.float, fmt.bits) != SampleKind::Unknown {
        forall|f: int|
            0 <= f < frames ==> is_mono(
                plus,
                none,
                finish,
                #[trigger] frame_of(
                    raw_samples(
                        kind_of(fmt.float, fmt.bits),
                        src->0@,
                        frames * channel_count(fmt.channels as usize),
                    ),
                    channel_count(fmt.channels as usize),
                    f,
                ),
                mono[f],
            )
    } else {
        forall|f: int| 0 <= f < frames ==> #[trigger] mono[f] == silence
    }
}

/// Whether a packet's payload is large enough for its frames.
pub open spec fn packet_fits(src: Option<&[u8]>, frames: u32, flags: u32, fmt: MixFormat) -> bool {
    is_heard(src, flags) ==> frames * channel_count(fmt.channels as usize) * width(
        kind_of(fmt.float, fmt.bits),
    ) <= src->0@.len() && frames * channel_count(fmt.channels as usize) <= usize::MAX
}

/// Turns a packet into mono samples, and counts it where it does not follow on
/// the one before. A packet without frames leaves everything as it is.
pub fn packet_mono<A: Copy, R: Copy, P: Fn(A, Raw) -> A, M: Fn(A, usize) -> R>(
    src: Option<&[u8]>,
    frames: u32,
    flags: u32,
    fmt: &MixFormat,
    none: A,
    plus: &P,
    finish: &M,
    silence: R,
    mono: &mut Vec<R>,
    discontinuities: &mut u32,
)
    requires
        packet_fits(src, frames, flags, *fmt),
        forall|a: A, x: Raw| call_requires(*plus, (a, x)),
        forall|a: A, n: usize| call_requires(*finish, (a, n)),
    ensures
        frames == 0 ==> *final(mono) == *old(mono) && *final(discontinuities) == *old(
            discontinuities,
        ),
        frames > 0 ==> packet_sound(
            src,
            frames,
            flags,
            *fmt,
            none,
            *plus,
            *finish,
            silence,
            final(mono)@,
        ),
        frames > 0 ==> *final(discontinuities) == if flags & FLAG_DISCONTINUITY != 0 {
            old(discontinuities).wrapping_add(1)
        } else {
            *old(discontinuities)
        },
{
    if frames == 0 {
        return;
    }
    let n: usize = frames as usize;
    mono.clear();
    let payload: Option<&[u8]> = if flags & FLAG_SILENT != 0 {
        None
    } else {
        src
    };
    match payload {
        Some(bytes) => {
            convert_interleaved_to_mono(
                bytes,
                n,
                fmt.channels as usize,
                fmt.bits,
                fmt.float,
                none,
                plus,
                finish,
                silence,
                mono,
            );
        },
        None => {
            let mut k: usize = 0;
            while k < n
                invariant
                    k <= n,
                    mono@.len() == k,
                    forall|f: int| 0 <= f < k ==> #[trigger] mono@[f] == silence,
                decreases n - k,
            {
                mono.push(silence);
                k = k + 1;
            }
        },
    }
    assert(forall|f: int| 0 <= f < n ==> #[trigger] mono@[f] == mono@[0 + f]);
    if flags & FLAG_DISCONTINUITY != 0 {
        *discontinuities = discontinuities.wrapping_add(1);
    }
}

/// Moves a packet into the ring, as mono samples at the host chain's rate.
pub fn take_packet<
    A: Copy,
    T: Copy,
    P: Fn(A, Raw) -> A,
    F: Fn(A, usize) -> T,
    B: Copy,
    Q: Fn(B, T) -> B,
    M: Fn(B, u32) -> T,
    D: Fn(T, (T, T)) -> T,
>(
    src: Option<&[u8]>,
    frames: u32,
    flags: u32,
    fmt: &MixFormat,
    silence: T,
    no_sum: A,
    plus: &P,
    finish: &F,
    mono: &mut Vec<T>,
    discontinuities: &mut u32,
    converter: &mut Option<SincResampler<T>>,
    scratch: &mut Vec<T>,
    ring: &mut AudioRing<T>,
    no_group: B,
    join: &Q,
    mean: &M,
    tap: &D,
)
    requires
        packet_fits(src, frames, flags, *fmt),
        old(ring).wf(),
        is_ready(*old(converter)),
        forall|a: A, x: Raw| call_requires(*plus, (a, x)),
        forall|a: A, n: usize| call_requires(*finish, (a, n)),
        forall|b: B, x: T| call_requires(*join, (b, x)),
        forall|b: B, n: u32| call_requires(*mean, (b, n)),
        forall|a: T, p: (T, T)| call_requires(*tap, (a, p)),
    ensures
        frames == 0 ==> {
            &&& *final(ring) == *old(ring)
            &&& *final(converter) == *old(converter)
            &&& *final(discontinuities) == *old(discontinuities)
        },
        frames > 0 ==> {
            &&& packet_sound(
                src,
                frames,
                flags,
                *fmt,
                no_sum,
                *plus,
                *finish,
                silence,
                final(mono)@,
            )
            &&& *final(discontinuities) == if flags & FLAG_DISCONTINUITY != 0 {
                old(discontinuities).wrapping_add(1)
            } else {
                *old(discontinuities)
            }
            &&& delivered(
                (*old(converter), *old(ring)),
                (*final(converter), *final(ring)),
                final(mono)@,
                final(scratch)@,
                no_group,
                *join,
                *mean,
                *tap,
            )
        },
{
    packet_mono(src, frames, flags, fmt, no_sum, plus, finish, silence, mono, discontinuities);
    if frames > 0 {
        deliver(converter, mono.as_slice(), scratch, ring, no_group, join, mean, tap);
    }
}

// ───────────────────────────────── teardown ────────────────────────────────
/// What the worker holds.
#[derive(Clone, Copy, PartialEq, Eq, Structural, Debug)]
pub struct Held {
    pub com: bool,
    pub process: bool,
    pub client: bool,
    pub buffer_event: bool,
    pub started: bool,
}

/// What the worker holds while it makes a call.
pub open spec fn held_at(step: Step) -> Held {
    let client = step == Step::InitFirst || step == Step::InitSecond || step
        == Step::CreateBufferEvent || step == Step::SetEvent || step == Step::GetService || step
        == Step::Start || step == Step::Packets;
    Held {
        com: step != Step::InitCom,
        process: step != Step::InitCom && step != Step::OpenTarget,
        client,
        buffer_event: step == Step::SetEvent || step == Step::GetService || step == Step::Start
            || step == Step::Packets,
        started: step == Step::Packets,
    }
}

/// What the worker holds while it makes a call.
pub fn held(step: Step) -> (r: Held)
    ensures
        r == held_at(step),
{
    let buffer_event: bool = step == Step::SetEvent || step == Step::GetService || step
        == Step::Start || step == Step::Packets;
    Held {
        com: step != Step::InitCom,
        process: step != Step::InitCom && step != Step::OpenTarget,
        client: buffer_event || step == Step::InitFirst || step == Step::InitSecond || step
            == Step::CreateBufferEvent,
        buffer_event,
        started: step == Step::Packets,
    }
}

/// A step of the worker's end.
#[derive(Clone, Copy, PartialEq, Eq, Structural, Debug)]
pub enum Undo {
    StopClient,
    ReleaseClient,
    CloseBufferEvent,
    CloseProcess,
    UninitCom,
}

/// One step where it is due.
pub open spec fn due(on: bool, undo: Undo) -> Seq<Undo> {
    if on {
        seq![undo]
    } else {
        Seq::empty()
    }
}

/// How the worker lets go of what it holds: the client first, since its release
/// needs COM and the engine signals the event until then; COM last.
pub open spec fn undone(h: Held) -> Seq<Undo> {
    due(h.started && h.client, Undo::StopClient) + due(h.client, Undo::ReleaseClient) + due(
        h.buffer_event,
        Undo::CloseBufferEvent,
    ) + due(h.process, Undo::CloseProcess) + due(h.com, Undo::UninitCom)
}

/// How the worker lets go of what it holds.
pub fn teardown(h: &Held) -> (r: Vec<Undo>)
    ensures
        r@ == undone(*h),
{
    let mut out: Vec<Undo> = Vec::new();
    if h.started && h.client {
        out.push(Undo::StopClient);
    }
    if h.client {
        out.push(Undo::ReleaseClient);
    }
    if h.buffer_event {
        out.push(Undo::CloseBufferEvent);
    }
    if h.process {
        out.push(Undo::CloseProcess);
    }
    if h.com {
        out.push(Undo::UninitCom);
    }
    out
}

/// COM goes last, after everything else that is held.
pub proof fn law_com_goes_last(h: Held, i: int)
    requires
        0 <= i < undone(h).len(),
        undone(h)[i] == Undo::UninitCom,
    ensures
        i == undone(h).len() - 1,
{
}

/// The client is released before its event is closed and before COM goes.
pub proof fn law_the_client_goes_before_its_event(h: Held, i: int, j: int)
    requires
        0 <= i < undone(h).len(),
        0 <= j < undone(h).len(),
        undone(h)[i] == Undo::ReleaseClient,
        undone(h)[j] == Undo::CloseBufferEvent || undone(h)[j] == Undo::CloseProcess
            || undone(h)[j] == Undo::UninitCom,
    ensures
        i < j,
{
}

/// Whatever call fails, everything that is held is let go, and once.
pub proof fn law_nothing_leaks(h: Held, i: int, j: int)
    requires
        0 <= i < undone(h).len(),
        0 <= j < undone(h).len(),
        undone(h)[i] == undone(h)[j],
    ensures
        i == j,
        h.client <==> undone(h).contains(Undo::ReleaseClient),
        h.buffer_event <==> undone(h).contains(Undo::CloseBufferEvent),
        h.process <==> undone(h).contains(Undo::CloseProcess),
        h.com <==> undone(h).contains(Undo::UninitCom),
{
    let s = undone(h);
    let a: int = if h.started && h.client {
        1
    } else {
        0
    };
    let b: int = a + if h.client {
        1int
    } else {
        0
    };
    let c: int = b + if h.buffer_event {
        1int
    } else {
        0
    };
    let d: int = c + if h.process {
        1int
    } else {
        0
    };
    assert(h.client ==> s[a] == Undo::ReleaseClient);
    assert(h.buffer_event ==> s[b] == Undo::CloseBufferEvent);
    assert(h.process ==> s[c] == Undo::CloseProcess);
    assert(h.com ==> s[d] == Undo::UninitCom);
}

/// The opening calls only ever add to what is held, and a refused first format
/// adds nothing.
pub proof fn law_opening_only_acquires(step: Step)
    ensures
        held_at(step).com ==> held_at(after(step)).com,
        held_at(step).process ==> held_at(after(step)).process,
        held_at(step).client ==> held_at(after(step)).client,
        held_at(step).buffer_event ==> held_at(after(step)).buffer_event,
        held_at(step).started ==> held_at(after(step)).started,
        held_at(Step::InitSecond) == held_at(Step::InitFirst),
{
}

} // verus!
