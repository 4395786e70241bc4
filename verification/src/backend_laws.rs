//! What holds of every backend's buffers, formats and failures.
use crate::downmix::{
    channel_count, column, frame_of, is_mono, kind_of, raw_at, raw_samples, Raw, SampleKind,
};
use crate::loopback;
use crate::pod::{
    bits_of, bytes32, chunk_frames, format_of, format_pod, kind_of_format, offer, padded,
    property_bytes, said_with, u32_at, walk, Fmt, Said, SpaIds,
};
use crate::registry::{
    is_output_stream, is_pick, node_of, number_of, rank, text_of, GlobalProps, NodeRec,
    NodeView,
};
use crate::signal_laws::{law_a_frame_is_averaged_whole, law_planes_are_averaged_whole};
use crate::stream;
use crate::tap;
use crate::text::{decimal, hex_digits, signed_decimal, unsigned_value};
use vstd::prelude::*;

verus! {

// ──────────────────────────────── loopback ─────────────────────────────────
/// A packet sounds like what it holds, unless it is marked silent, holds nothing
/// or is in a format that is not understood: mono sample `f` is then the
/// finished sum of the samples `f * ch` to `f * ch + ch - 1`, each once and in
/// order. Else every sample is silent.
pub proof fn law_packets_are_heard_whole<A, R, P: Fn(A, Raw) -> A, M: Fn(A, usize) -> R>(
    src: Option<&[u8]>,
    frames: u32,
    flags: u32,
    fmt: loopback::MixFormat,
    none: A,
    plus: P,
    finish: M,
    silence: R,
    mono: Seq<R>,
    f: int,
    ch: int,
) -> (sums: Seq<A>)
    requires
        loopback::packet_sound(src, frames, flags, fmt, none, plus, finish, silence, mono),
        0 <= f < frames,
        ch == if fmt.channels == 0 {
            1int
        } else {
            fmt.channels as int
        },
    ensures
        mono.len() == frames,
        ({
            let known = (fmt.float && fmt.bits == 32) || (!fmt.float && fmt.bits == 16) || (
            !fmt.float && fmt.bits == 32);
            let heard = src is Some && flags & 2 == 0 && known;
            &&& heard ==> {
                &&& sums.len() == ch + 1
                &&& sums[0] == none
                &&& forall|c: int|
                    0 <= c < ch ==> call_ensures(
                        plus,
                        (
                            #[trigger] sums[c],
                            raw_at(kind_of(fmt.float, fmt.bits), src->0@, f * ch + c),
                        ),
                        sums[c + 1],
                    )
                &&& call_ensures(finish, (sums[ch], ch as usize), mono[f])
            }
            &&& !heard ==> mono[f] == silence
        }),
{
    let kind = kind_of(fmt.float, fmt.bits);
    if loopback::is_heard(src, flags) && kind != SampleKind::Unknown {
        let count = frames * ch;
        let samples = raw_samples(kind, src->0@, count);
        assert(channel_count(fmt.channels as usize) == ch);
        assert(0 <= f * ch && f * ch + ch <= count) by (nonlinear_arith)
            requires
                0 <= f,
                f + 1 <= frames,
                ch >= 1,
                count == frames * ch,
        {
        }
        assert(is_mono(plus, none, finish, frame_of(samples, ch, f), mono[f]));
        let sums = law_a_frame_is_averaged_whole(plus, none, finish, samples, ch, f, mono[f]);
        assert forall|c: int| 0 <= c < ch implies call_ensures(
            plus,
            (#[trigger] sums[c], raw_at(kind, src->0@, f * ch + c)),
            sums[c + 1],
        ) by {
            assert(samples[f * ch + c] == raw_at(kind, src->0@, f * ch + c));
        }
        sums
    } else {
        Seq::empty()
    }
}

/// What the worker says of a failed call ends in the call's own description,
/// whatever that is; of a target that cannot be opened it names the id around
/// it, and of a refused format it gives no description.
pub proof fn law_complaints_quote_the_error(step: loopback::Step, pid: u32, error: Seq<char>)
    ensures
        step == loopback::Step::OpenTarget ==> loopback::complaint(step, pid, error)
            == "OpenProcess(pid="@ + decimal(pid as nat) + ") 失败: "@ + error
            + "。若目标以管理员权限运行，MicYou 也需以管理员运行"@,
        step == loopback::Step::InitFirst || step == loopback::Step::InitSecond
            ==> loopback::complaint(step, pid, error) == loopback::complaint(
            step,
            0,
            Seq::<char>::empty(),
        ),
        step != loopback::Step::OpenTarget && step != loopback::Step::InitFirst && step
            != loopback::Step::InitSecond ==> loopback::complaint(step, pid, error)
            == loopback::complaint(step, 0, Seq::<char>::empty()) + error,
        step == loopback::Step::AwaitActivation || step == loopback::Step::CheckResult || step
            == loopback::Step::Packets ==> loopback::complaint(step, pid, error) == error,
{
    assert(loopback::complaint(step, 0, Seq::<char>::empty()) + error =~= loopback::complaint(
        step,
        pid,
        error,
    ) || step == loopback::Step::OpenTarget || step == loopback::Step::InitFirst || step
        == loopback::Step::InitSecond);
}

/// The place of a call in the opening; the two formats share one.
pub open spec fn place(step: loopback::Step) -> int {
    match step {
        loopback::Step::InitCom => 0,
        loopback::Step::OpenTarget => 1,
        loopback::Step::CreateEvent => 2,
        loopback::Step::Activate => 3,
        loopback::Step::AwaitActivation => 4,
        loopback::Step::FetchResult => 5,
        loopback::Step::CheckResult => 6,
        loopback::Step::CastClient => 7,
        loopback::Step::InitFirst | loopback::Step::InitSecond => 8,
        loopback::Step::CreateBufferEvent => 9,
        loopback::Step::SetEvent => 10,
        loopback::Step::GetService => 11,
        loopback::Step::Start => 12,
        loopback::Step::Packets => 13,
    }
}

/// The opening calls are made in their order, none is skipped, the second format
/// is tried only where the first was refused, and packets go on.
pub proof fn law_no_opening_call_is_skipped(step: loopback::Step)
    ensures
        step != loopback::Step::Packets ==> place(loopback::after(step)) == place(step) + 1,
        loopback::after(loopback::Step::Packets) == loopback::Step::Packets,
        loopback::after(step) != loopback::Step::InitSecond,
{
}

/// A call that succeeds leads on; a refused first format leads to the second;
/// every other failure ends the opening with its complaint.
pub proof fn law_only_a_refused_format_is_retried(
    step: loopback::Step,
    pid: u32,
    error: Seq<char>,
)
    ensures
        loopback::advanced(step, Ok(()), pid) == Ok::<loopback::Step, Seq<char>>(
            loopback::after(step),
        ),
        step == loopback::Step::InitFirst ==> loopback::advanced(step, Err(error), pid) == Ok::<
            loopback::Step,
            Seq<char>,
        >(loopback::Step::InitSecond),
        step != loopback::Step::InitFirst ==> loopback::advanced(step, Err(error), pid) == Err::<
            loopback::Step,
            Seq<char>,
        >(loopback::complaint(step, pid, error)),
{
}

/// An activation fails exactly where its code has the highest bit; what is said
/// gives the code's eight hexadecimal digits, the target's name and a hint, which
/// is a known one for four codes.
pub proof fn law_failed_activations_are_told(code: u32, app: Seq<char>)
    ensures
        loopback::failed(code) <==> code >= 2_147_483_648,
        loopback::activation_failure(code, app) == "进程环回激活失败 (HRESULT "@ + seq!['0', 'x']
            + hex_digits(code as nat, 8) + ", "@ + app + "): "@ + loopback::hint_of(code),
        code != 0x8007_0005 && code != 0x8007_0057 && code != 0x8007_0490 && code != 0x8889_000b
            ==> loopback::hint_of(code) == "未知原因"@,
        loopback::hint_of(0x8007_0005)
            == "拒绝访问：目标以更高权限运行（试试以管理员身份运行 MicYou），或为受 DRM 保护的内容"@,
        loopback::hint_of(0x8007_0057) == "激活参数被拒绝（系统音频服务异常？）"@,
        loopback::hint_of(0x8007_0490)
            == "音频引擎未找到目标进程的音频端点（稍后重试；若持续失败请确认系统为 Windows 10 2004 / build 19041 及以上）"@,
        loopback::hint_of(0x8889_000b) == "端点类型错误（系统不支持进程环回？需 Windows 10 2004+）"@,
{
}

/// The worker comes to hold each thing by the call that gives it, and holds
/// nothing before the first.
pub proof fn law_each_call_gives_what_it_gives(step: loopback::Step)
    ensures
        ({
            let h = loopback::held_at(loopback::Step::InitCom);
            !h.com && !h.process && !h.client && !h.buffer_event && !h.started
        }),
        ({
            let a = loopback::held_at(step);
            let b = loopback::held_at(loopback::after(step));
            &&& !a.com && b.com <==> step == loopback::Step::InitCom
            &&& !a.process && b.process <==> step == loopback::Step::OpenTarget
            &&& !a.client && b.client <==> step == loopback::Step::CastClient
            &&& !a.buffer_event && b.buffer_event <==> step == loopback::Step::CreateBufferEvent
            &&& !a.started && b.started <==> step == loopback::Step::Start
        }),
{
}

/// The order of the worker's end.
pub open spec fn undo_order(u: loopback::Undo) -> int {
    match u {
        loopback::Undo::StopClient => 0,
        loopback::Undo::ReleaseClient => 1,
        loopback::Undo::CloseBufferEvent => 2,
        loopback::Undo::CloseProcess => 3,
        loopback::Undo::UninitCom => 4,
    }
}

/// Whatever is held is let go in one order: the client is stopped and released,
/// then its event is closed, then the target, then COM. A client is stopped just
/// where it was started.
pub proof fn law_the_end_has_one_order(h: loopback::Held, i: int, j: int)
    requires
        0 <= i < j < loopback::undone(h).len(),
    ensures
        undo_order(loopback::undone(h)[i]) < undo_order(loopback::undone(h)[j]),
        loopback::undone(h)[0] == loopback::Undo::StopClient <==> h.started && h.client,
{
}

/// A client is stopped exactly where there is one and it was started, whatever
/// else is held.
pub proof fn law_only_started_clients_are_stopped(h: loopback::Held)
    ensures
        loopback::undone(h).contains(loopback::Undo::StopClient) <==> h.started && h.client,
        !h.com && !h.process && !h.client && !h.buffer_event ==> loopback::undone(h).len() == 0,
{
    if h.started && h.client {
        assert(loopback::undone(h)[0] == loopback::Undo::StopClient);
    }
}

/// The times and flags of the loopback.
pub proof fn law_the_loopback_s_numbers()
    ensures
        loopback::BUFFER_DURATION_HNS == 10_000_000,
        loopback::ACTIVATE_TIMEOUT_MS == 5_000,
        loopback::EVENT_WAIT_MS == 100,
        loopback::SYNCHRONIZE == 0x0010_0000,
        loopback::FLAG_DISCONTINUITY == 1,
        loopback::FLAG_SILENT == 2,
        stream::SEARCH_BUDGET_NS == 2_000_000_000,
        stream::ADOPT_BUDGET_NS == 1_000_000_000,
        tap::FLAG_IS_FLOAT == 1,
        tap::FLAG_IS_NON_INTERLEAVED == 4,
{
}

// ───────────────────────────────── streams ─────────────────────────────────
/// The frames of a buffer start at its offset, or at its end where the offset is
/// past that; they are as many whole ones as its size and the buffer hold.
pub proof fn law_a_chunk_holds_whole_frames(total: int, offset: int, size: int, frame: int)
    requires
        total >= 0,
        offset >= 0,
        size >= 0,
        frame >= 1,
    ensures
        chunk_frames(total, offset, size, 0) == chunk_frames(total, offset, size, 1),
        ({
            let (start, n) = chunk_frames(total, offset, size, frame);
            &&& offset <= total ==> start == offset
            &&& offset >= total ==> start == total
            &&& n >= 0
            &&& n * frame <= size
            &&& start + n * frame <= total
            &&& (n + 1) * frame > size || start + (n + 1) * frame > total
        }),
{
    let (start, n) = chunk_frames(total, offset, size, frame);
    let len = if size < total - start {
        size
    } else {
        total - start
    };
    vstd::arithmetic::div_mod::lemma_fundamental_div_mod(len, frame);
    vstd::arithmetic::div_mod::lemma_mod_bound(len, frame);
    vstd::arithmetic::div_mod::lemma_div_pos_is_pos(len, frame);
    assert(frame * n == n * frame && (n + 1) * frame == n * frame + frame) by (nonlinear_arith);
}

/// The place of a call in the opening of a stream.
pub open spec fn stream_place(step: stream::Step) -> int {
    match step {
        stream::Step::MakeLoop => 0,
        stream::Step::MakeContext => 1,
        stream::Step::Connect => 2,
        stream::Step::GetRegistry => 3,
        stream::Step::Search => 4,
        stream::Step::MakeStream => 5,
        stream::Step::Listen => 6,
        stream::Step::Attach => 7,
        stream::Step::Drive => 8,
    }
}

/// The opening calls of a stream are made in their order, and none is skipped.
pub proof fn law_no_stream_call_is_skipped(step: stream::Step)
    ensures
        step != stream::Step::Drive ==> stream_place(stream::after(step)) == stream_place(step)
            + 1,
        stream::after(stream::Step::Drive) == stream::Step::Drive,
        step == stream::Step::Search || step == stream::Step::Drive ==> stream::complaint(
            step,
        ).len() == 0,
{
}

/// A format's frame has two bytes per channel where its samples are short, else
/// four; its samples are floats, short or long integers by its kind.
pub proof fn law_kinds_have_widths(fmt: Fmt)
    ensures
        fmt.kind == 1 ==> stream::frame_size(fmt) == 2 * fmt.channels && kind_of(
            fmt.kind == 0,
            bits_of(fmt.kind),
        ) == SampleKind::Short,
        fmt.kind == 0 ==> stream::frame_size(fmt) == 4 * fmt.channels && kind_of(
            fmt.kind == 0,
            bits_of(fmt.kind),
        ) == SampleKind::Float,
        fmt.kind > 1 ==> stream::frame_size(fmt) == 4 * fmt.channels && kind_of(
            fmt.kind == 0,
            bits_of(fmt.kind),
        ) == SampleKind::Long,
{
    let ch = fmt.channels as int;
    let w = bits_of(fmt.kind) as int / 8;
    assert(ch * w == w * ch) by (nonlinear_arith);
    assert(fmt.kind == 1 ==> w == 2);
    assert(fmt.kind != 1 ==> w == 4);
}

/// A buffer sounds like its whole frames: mono sample `f` is the finished sum of
/// the samples `f * ch` to `f * ch + ch - 1` behind the start, each once and in
/// order.
pub proof fn law_chunks_are_heard_whole<A, T, P: Fn(A, Raw) -> A, F: Fn(A, usize) -> T>(
    fmt: Fmt,
    bytes: Seq<u8>,
    offset: u32,
    size: u32,
    none: A,
    plus: P,
    finish: F,
    mono: Seq<T>,
    f: int,
) -> (sums: Seq<A>)
    requires
        fmt.channels >= 1,
        stream::chunk_sound(fmt, bytes, offset, size, none, plus, finish, mono),
        0 <= f < mono.len(),
    ensures
        ({
            let ch = fmt.channels as int;
            let frame = if fmt.kind == 1 {
                2 * ch
            } else {
                4 * ch
            };
            let (start, frames) = chunk_frames(
                bytes.len() as int,
                offset as int,
                size as int,
                frame,
            );
            let kind = kind_of(fmt.kind == 0, bits_of(fmt.kind));
            &&& mono.len() == frames
            &&& sums.len() == ch + 1
            &&& sums[0] == none
            &&& forall|c: int|
                0 <= c < ch ==> call_ensures(
                    plus,
                    (#[trigger] sums[c], raw_at(kind, bytes.skip(start), f * ch + c)),
                    sums[c + 1],
                )
            &&& call_ensures(finish, (sums[ch], fmt.channels), mono[f])
        }),
{
    law_kinds_have_widths(fmt);
    let ch = fmt.channels as int;
    let (start, frames) = stream::window_of(fmt, bytes, offset, size);
    let kind = kind_of(fmt.kind == 0, bits_of(fmt.kind));
    let samples = stream::chunk_samples(fmt, bytes.skip(start), frames);
    let count = frames * ch;
    assert(0 <= f * ch && f * ch + ch <= count) by (nonlinear_arith)
        requires
            0 <= f,
            f + 1 <= frames,
            ch >= 1,
            count == frames * ch,
    {
    }
    assert(is_mono(plus, none, finish, frame_of(samples, ch, f), mono[f]));
    let sums = law_a_frame_is_averaged_whole(plus, none, finish, samples, ch, f, mono[f]);
    assert forall|c: int| 0 <= c < ch implies call_ensures(
        plus,
        (#[trigger] sums[c], raw_at(kind, bytes.skip(start), f * ch + c)),
        sums[c + 1],
    ) by {
        assert(samples[f * ch + c] == raw_at(kind, bytes.skip(start), f * ch + c));
    }
    sums
}

/// A buffer is heard exactly where the worker is not told to stop, a format is
/// known, and the buffer holds a whole frame behind its offset.
pub proof fn law_a_chunk_is_heard(
    stopped: bool,
    fmt: Fmt,
    bytes: &[u8],
    offset: u32,
    size: u32,
)
    requires
        fmt.channels >= 1,
    ensures
        ({
            let frame = if fmt.kind == 1 {
                2 * fmt.channels
            } else {
                4 * fmt.channels
            };
            stream::is_heard(stopped, Some(fmt), Some(bytes), offset, size) <==> !stopped && size
                >= frame && offset + frame <= bytes@.len()
        }),
        !stream::is_heard(stopped, None, Some(bytes), offset, size),
        !stream::is_heard(stopped, Some(fmt), None, offset, size),
{
    law_kinds_have_widths(fmt);
    let frame = stream::frame_size(fmt);
    let total = bytes@.len() as int;
    law_a_chunk_holds_whole_frames(total, offset as int, size as int, frame);
    let (start, n) = chunk_frames(total, offset as int, size as int, frame);
    if n >= 1 {
        assert(n * frame >= frame) by (nonlinear_arith)
            requires
                n >= 1,
                frame >= 1,
        {
        }
    } else {
        assert((n + 1) * frame == frame) by (nonlinear_arith)
            requires
                n == 0,
        {
        }
    }
}

// ────────────────────────────────── pods ───────────────────────────────────
/// A number is read from four bytes, lowest first, where all four are there.
pub proof fn law_numbers_are_read_in_place(bytes: Seq<u8>, off: int)
    ensures
        0 <= off && off + 4 <= bytes.len() ==> (u32_at(bytes, off) matches Some(n) && n
            == bytes[off] + 256 * bytes[off + 1] + 65_536 * bytes[off + 2] + 16_777_216 * bytes[off
            + 3]),
        off < 0 || off + 4 > bytes.len() ==> u32_at(bytes, off) is None,
{
}

/// A written number is read back.
pub proof fn law_numbers_are_read_back(n: u32)
    ensures
        bytes32(n).len() == 4,
        u32_at(bytes32(n), 0) == Some(n),
{
}

/// A value is padded to the next multiple of eight.
pub proof fn law_values_are_padded(size: int)
    requires
        size >= 0,
    ensures
        size <= padded(size) < size + 8,
        padded(size) % 8 == 0,
{
}

/// A sample format has the kind of its number; any other has none.
pub proof fn law_formats_have_kinds(ids: SpaIds, id: u32)
    ensures
        kind_of_format(ids, id) == 0 <==> id == ids.format_f32,
        kind_of_format(ids, id) == 1 <==> id == ids.format_s16 && id != ids.format_f32,
        kind_of_format(ids, id) == 2 <==> id == ids.format_s32 && id != ids.format_s16 && id
            != ids.format_f32,
        kind_of_format(ids, id) == 255 <==> id != ids.format_f32 && id != ids.format_s16 && id
            != ids.format_s32,
{
}

/// A property says one thing and leaves the rest: the sample format under its
/// key where it is an id, the rate and the channel count under theirs where they
/// are integers; every other property says nothing, whatever its value.
pub proof fn law_a_property_says_one_thing(
    ids: SpaIds,
    said: Said,
    key: u32,
    vtype: u32,
    value: Option<u32>,
)
    requires
        ids.key_format != ids.key_rate,
        ids.key_format != ids.key_channels,
        ids.key_rate != ids.key_channels,
    ensures
        ({
            let format = key == ids.key_format && vtype == ids.type_id;
            let rate = key == ids.key_rate && vtype == ids.type_int;
            let channels = key == ids.key_channels && vtype == ids.type_int;
            let next = said_with(ids, said, key, vtype, value);
            &&& next is None <==> value is None && (format || rate || channels)
            &&& next matches Some(n) ==> {
                &&& format ==> n.kind == kind_of_format(ids, value->0)
                &&& !format ==> n.kind == said.kind
                &&& rate ==> n.rate == value->0
                &&& !rate ==> n.rate == said.rate
                &&& channels ==> n.channels == value->0
                &&& !channels ==> n.channels == said.channels
            }
        }),
{
}

/// Properties are read one behind the other: a size, a type, the value padded to
/// eight bytes, a key and four bytes more. Bytes that end early give nothing.
pub proof fn law_properties_are_read_in_turn(
    ids: SpaIds,
    bytes: Seq<u8>,
    off: int,
    n: nat,
    said: Said,
)
    ensures
        walk(ids, bytes, off, 0, said) == Some(said),
        n > 0 && (u32_at(bytes, off) is None || u32_at(bytes, off + 4) is None) ==> walk(
            ids,
            bytes,
            off,
            n,
            said,
        ) is None,
        n > 0 && u32_at(bytes, off) is Some && u32_at(bytes, off + 4) is Some ==> {
            let key_off = off + 8 + padded(u32_at(bytes, off)->0 as int);
            &&& u32_at(bytes, key_off) is None ==> walk(ids, bytes, off, n, said) is None
            &&& u32_at(bytes, key_off) is Some ==> {
                let next = said_with(
                    ids,
                    said,
                    u32_at(bytes, key_off)->0,
                    u32_at(bytes, off + 4)->0,
                    u32_at(bytes, off + 8),
                );
                &&& next is None ==> walk(ids, bytes, off, n, said) is None
                &&& next is Some ==> walk(ids, bytes, off, n, said) == walk(
                    ids,
                    bytes,
                    key_off + 8,
                    (n - 1) as nat,
                    next->0,
                )
            }
        },
{
    reveal(walk);
}

/// A format is understood exactly where the pod is an object whose properties
/// can all be read and say a rate, channels and a sample format of a known
/// kind; it is what they say.
pub proof fn law_formats_are_understood_whole(ids: SpaIds, bytes: Seq<u8>)
    ensures
        ({
            let silent = Said { rate: 0, channels: 0, kind: 255 };
            let read = walk(ids, bytes, 16, u32_at(bytes, 12)->0 as nat, silent);
            let object = u32_at(bytes, 4) == Some(ids.type_object) && u32_at(bytes, 12) is Some;
            &&& format_of(ids, bytes) is Some <==> object && read is Some && read->0.rate != 0
                && read->0.channels != 0 && read->0.kind != 255
            &&& format_of(ids, bytes) matches Some(f) ==> f.rate == read->0.rate && f.channels
                == read->0.channels && f.kind == read->0.kind
        }),
{
}

/// Where the parts of a written property lie.
pub proof fn law_a_property_is_laid_out(key: u32, vtype: u32, value: u32)
    ensures
        ({
            let p = property_bytes(key, vtype, value);
            &&& p.len() == 24
            &&& u32_at(p, 0) == Some(4u32)
            &&& u32_at(p, 4) == Some(vtype)
            &&& u32_at(p, 8) == Some(value)
            &&& u32_at(p, 12) == Some(0u32)
            &&& u32_at(p, 16) == Some(key)
            &&& u32_at(p, 20) == Some(0u32)
        }),
{
    reveal(property_bytes);
    let p = property_bytes(key, vtype, value);
    lemma_read(p, 0, 4);
    lemma_read(p, 4, vtype);
    lemma_read(p, 8, value);
    lemma_read(p, 12, 0);
    lemma_read(p, 16, key);
    lemma_read(p, 20, 0);
}

proof fn lemma_read(bytes: Seq<u8>, off: int, n: u32)
    requires
        0 <= off,
        off + 4 <= bytes.len(),
        bytes[off] == (n % 0x100) as u8,
        bytes[off + 1] == (n / 0x100 % 0x100) as u8,
        bytes[off + 2] == (n / 0x1_0000 % 0x100) as u8,
        bytes[off + 3] == (n / 0x100_0000) as u8,
    ensures
        u32_at(bytes, off) == Some(n),
{
}

/// Where the parts of a written pod lie: the size of what follows, the object's
/// type, the format's, the number of properties, and the five properties.
pub proof fn law_a_pod_is_laid_out(ids: SpaIds, format: u32, rate: u32, channels: u32)
    ensures
        ({
            let p = format_pod(ids, format, rate, channels);
            &&& p.len() == 136
            &&& u32_at(p, 0) == Some(128u32)
            &&& u32_at(p, 4) == Some(ids.type_object)
            &&& u32_at(p, 8) == Some(ids.object_format)
            &&& u32_at(p, 12) == Some(5u32)
            &&& p.subrange(16, 40) == property_bytes(
                ids.key_media_type,
                ids.type_id,
                ids.media_type_audio,
            )
            &&& p.subrange(40, 64) == property_bytes(
                ids.key_media_subtype,
                ids.type_id,
                ids.media_subtype_raw,
            )
            &&& p.subrange(64, 88) == property_bytes(ids.key_format, ids.type_id, format)
            &&& p.subrange(88, 112) == property_bytes(ids.key_rate, ids.type_int, rate)
            &&& p.subrange(112, 136) == property_bytes(ids.key_channels, ids.type_int, channels)
        }),
{
    let p = format_pod(ids, format, rate, channels);
    let a = property_bytes(ids.key_media_type, ids.type_id, ids.media_type_audio);
    let b = property_bytes(ids.key_media_subtype, ids.type_id, ids.media_subtype_raw);
    let c = property_bytes(ids.key_format, ids.type_id, format);
    let d = property_bytes(ids.key_rate, ids.type_int, rate);
    let e = property_bytes(ids.key_channels, ids.type_int, channels);
    assert(a.len() == 24 && b.len() == 24 && c.len() == 24 && d.len() == 24 && e.len() == 24) by {
        reveal(property_bytes);
    }
    lemma_read(p, 0, 128);
    lemma_read(p, 4, ids.type_object);
    lemma_read(p, 8, ids.object_format);
    lemma_read(p, 12, 5);
    assert(p.subrange(16, 40) =~= a);
    assert(p.subrange(40, 64) =~= b);
    assert(p.subrange(64, 88) =~= c);
    assert(p.subrange(88, 112) =~= d);
    assert(p.subrange(112, 136) =~= e);
}

/// The formats on offer are every combination of three sample formats, four
/// rates and two channel counts, in that order.
pub proof fn law_every_combination_is_on_offer(ids: SpaIds, a: int, b: int, c: int)
    requires
        0 <= a < 3,
        0 <= b < 4,
        0 <= c < 2,
    ensures
        offer(ids, 8 * a + 2 * b + c) == format_pod(
            ids,
            seq![ids.format_f32, ids.format_s32, ids.format_s16][a],
            seq![48_000u32, 44_100, 96_000, 192_000][b],
            seq![2u32, 1][c],
        ),
{
}

// ────────────────────────────────── taps ───────────────────────────────────
/// The place of a call in the opening of a tap; the two scopes share one.
pub open spec fn tap_place(step: tap::Step) -> int {
    match step {
        tap::Step::MakeDescription => 0,
        tap::Step::MakeNumber => 1,
        tap::Step::MakeArray => 2,
        tap::Step::CreateTap => 3,
        tap::Step::ReadInput | tap::Step::ReadGlobal => 4,
        tap::Step::CreateProc => 5,
        tap::Step::StartDevice => 6,
        tap::Step::Run => 7,
    }
}

/// The opening calls of a tap are made in their order, none is skipped, and the
/// global scope is read only where the input scope refused.
pub proof fn law_no_tap_call_is_skipped(step: tap::Step)
    ensures
        step != tap::Step::Run ==> tap_place(tap::after(step)) == tap_place(step) + 1,
        tap::after(tap::Step::Run) == tap::Step::Run,
        tap::after(step) != tap::Step::ReadGlobal,
{
}

/// A stream can be read exactly where it is flagged as floats of 32 bits.
pub proof fn law_taps_are_floats(flags: u32, bits: u32)
    ensures
        tap::is_float32(flags, bits) <==> flags & 1 != 0 && bits == 32,
{
}

/// A buffer holds as many whole frames as its bytes: of all channels where they
/// are interleaved, else of one.
pub proof fn law_a_tap_buffer_holds_whole_frames(fmt: tap::TapFormat, bytes: u32)
    ensures
        ({
            let ch = if fmt.interleaved && fmt.channels > 0 {
                fmt.channels as int
            } else {
                1
            };
            let n = tap::frames_in(fmt, bytes);
            n >= 0 && n * ch * 4 <= bytes < (n + 1) * ch * 4
        }),
{
    let ch = if fmt.interleaved && fmt.channels > 0 {
        fmt.channels as int
    } else {
        1
    };
    let samples = bytes as int / 4;
    let n = tap::frames_in(fmt, bytes);
    vstd::arithmetic::div_mod::lemma_fundamental_div_mod(samples, ch);
    vstd::arithmetic::div_mod::lemma_mod_bound(samples, ch);
    vstd::arithmetic::div_mod::lemma_div_pos_is_pos(samples, ch);
    vstd::arithmetic::div_mod::lemma_div_by_multiple(samples, 1);
    assert(n == samples / ch);
    assert(ch * n == n * ch && (n + 1) * ch == n * ch + ch) by (nonlinear_arith);
}

/// The first buffer of an interleaved tap is heard whole: mono sample `f` is the
/// finished sum of the samples `f * ch` to `f * ch + ch - 1`.
pub proof fn law_interleaved_taps_are_heard_whole<
    X,
    A,
    T,
    P: Fn(A, X) -> A,
    F: Fn(A, usize) -> T,
>(
    fmt: tap::TapFormat,
    frames: int,
    planes: Seq<Vec<X>>,
    zero: X,
    none: A,
    plus: P,
    finish: F,
    mono: Seq<T>,
    f: int,
    ch: int,
) -> (sums: Seq<A>)
    requires
        fmt.interleaved,
        tap::tap_sound(fmt, frames, planes, zero, none, plus, finish, mono),
        0 <= f < frames,
        ch == if fmt.channels == 0 {
            1int
        } else {
            fmt.channels as int
        },
        planes.len() > 0,
        frames * ch <= planes[0]@.len(),
    ensures
        mono.len() == frames,
        sums.len() == ch + 1,
        sums[0] == none,
        forall|c: int|
            0 <= c < ch ==> call_ensures(
                plus,
                (#[trigger] sums[c], planes[0]@[f * ch + c]),
                sums[c + 1],
            ),
        call_ensures(finish, (sums[ch], ch as usize), mono[f]),
{
    assert(0 <= f * ch && f * ch + ch <= frames * ch) by (nonlinear_arith)
        requires
            0 <= f,
            f + 1 <= frames,
            ch >= 1,
    {
    }
    assert(channel_count(fmt.channels) == ch);
    assert(is_mono(plus, none, finish, frame_of(planes[0]@, ch, f), mono[f]));
    law_a_frame_is_averaged_whole(plus, none, finish, planes[0]@, ch, f, mono[f])
}

/// Every buffer of another tap is a channel: mono sample `f` is the finished sum
/// of each buffer's sample `f`, silent where the buffer is too short.
pub proof fn law_planar_taps_are_heard_whole<
    X,
    A,
    T,
    P: Fn(A, X) -> A,
    F: Fn(A, usize) -> T,
>(
    fmt: tap::TapFormat,
    frames: int,
    planes: Seq<Vec<X>>,
    zero: X,
    none: A,
    plus: P,
    finish: F,
    mono: Seq<T>,
    f: int,
) -> (sums: Seq<A>)
    requires
        !fmt.interleaved,
        tap::tap_sound(fmt, frames, planes, zero, none, plus, finish, mono),
        0 <= f < frames,
        planes.len() <= usize::MAX,
    ensures
        mono.len() == frames,
        sums.len() == planes.len() + 1,
        sums[0] == none,
        forall|c: int|
            0 <= c < planes.len() ==> call_ensures(
                plus,
                (
                    #[trigger] sums[c],
                    if f < planes[c]@.len() {
                        planes[c]@[f]
                    } else {
                        zero
                    },
                ),
                sums[c + 1],
            ),
        call_ensures(finish, (sums[planes.len() as int], planes.len() as usize), mono[f]),
{
    assert(is_mono(plus, none, finish, column(planes, zero, f), mono[f]));
    law_planes_are_averaged_whole(plus, none, finish, planes, zero, f, mono[f])
}

/// A callback is heard exactly where the worker is not told to stop and its
/// first buffer holds a whole frame.
pub proof fn law_a_callback_is_heard(stopped: bool, fmt: tap::TapFormat, bytes: u32)
    ensures
        ({
            let ch = if fmt.interleaved && fmt.channels > 0 {
                fmt.channels as int
            } else {
                1
            };
            tap::is_heard(stopped, fmt, Some(bytes)) <==> !stopped && bytes >= 4 * ch
        }),
        !tap::is_heard(stopped, fmt, None),
{
    law_a_tap_buffer_holds_whole_frames(fmt, bytes);
    let ch = if fmt.interleaved && fmt.channels > 0 {
        fmt.channels as int
    } else {
        1
    };
    let n = tap::frames_in(fmt, bytes);
    if n >= 1 {
        assert(n * ch >= ch) by (nonlinear_arith)
            requires
                n >= 1,
                ch >= 1,
        {
        }
    } else {
        assert((n + 1) * ch == ch) by (nonlinear_arith)
            requires
                n == 0,
        {
        }
    }
}

/// What the worker says of a failed call gives its status, and that of the
/// other scope where both refused to give the format.
pub proof fn law_tap_complaints_give_the_status(step: tap::Step, status: i32, earlier: i32)
    ensures
        step == tap::Step::CreateTap ==> tap::complaint(step, status, earlier)
            == "AudioHardwareCreateProcessTap 失败 (OSStatus "@ + signed_decimal(status as int)
            + ")：目标进程可能已退出或拒绝被捕获"@,
        step == tap::Step::ReadGlobal ==> tap::complaint(step, status, earlier)
            == "读取 tap 流格式失败 (OSStatus "@ + signed_decimal(earlier as int) + "/"@
            + signed_decimal(status as int) + ")"@,
        step == tap::Step::CreateProc ==> tap::complaint(step, status, earlier)
            == "AudioDeviceCreateIOProcID 失败 (OSStatus "@ + signed_decimal(status as int) + ")"@,
        step == tap::Step::StartDevice || step == tap::Step::Run ==> tap::complaint(step, status, earlier)
            == "AudioDeviceStart 失败 (OSStatus "@ + signed_decimal(status as int) + ")"@,
        step == tap::Step::MakeDescription || step == tap::Step::MakeNumber || step
            == tap::Step::MakeArray ==> tap::complaint(step, status, earlier) == tap::complaint(
            step,
            0,
            0,
        ),
{
}

/// Nothing is missing exactly where every function is there; else the first one
/// that is missing is named.
pub proof fn law_the_first_missing_function_is_named(a: bool, b: bool, c: bool, d: bool)
    ensures
        tap::first_missing(a, b, c, d) is None <==> a && b && c && d,
        !a ==> tap::first_missing(a, b, c, d) == Some("CATapDescriptionCreate"@),
        a && !b ==> tap::first_missing(a, b, c, d) == Some("CATapDescriptionSetProcessIDs"@),
        a && b && !c ==> tap::first_missing(a, b, c, d) == Some("AudioHardwareCreateProcessTap"@),
        a && b && c && !d ==> tap::first_missing(a, b, c, d) == Some(
            "AudioHardwareDestroyProcessTap"@,
        ),
{
}

/// Each call of a tap's opening adds what it gave to what is let go: the tap,
/// then the callback's state, the callback, the running device.
pub proof fn law_a_tap_lets_go_of_what_it_has(step: tap::Step)
    ensures
        ({
            let s = tap::undone(step);
            let made = step == tap::Step::ReadInput || step == tap::Step::ReadGlobal;
            &&& s.contains(tap::Undo::DestroyTap) <==> made || step == tap::Step::CreateProc || step
                == tap::Step::StartDevice || step == tap::Step::Run
            &&& s.contains(tap::Undo::FreeState) <==> step == tap::Step::CreateProc || step
                == tap::Step::StartDevice || step == tap::Step::Run
            &&& s.contains(tap::Undo::DestroyProc) <==> step == tap::Step::StartDevice || step
                == tap::Step::Run
            &&& s.contains(tap::Undo::StopDevice) <==> step == tap::Step::Run
        }),
{
    let s = tap::undone(step);
    let n = s.len();
    if n > 0 {
        assert(s[n - 1] == tap::Undo::DestroyTap);
    }
    if n > 1 {
        assert(s[n - 2] == tap::Undo::FreeState);
    }
    if n > 2 {
        assert(s[n - 3] == tap::Undo::DestroyProc);
    }
    if n > 3 {
        assert(s[n - 4] == tap::Undo::StopDevice);
    }
}

// ──────────────────────────────── registry ─────────────────────────────────
/// A node belongs to a process by the stamp of its client, else by the id that
/// it states, else by its name; a process without a name has none by name.
pub proof fn law_nodes_belong_by_stamp_id_or_name(
    node: NodeView,
    clients: Map<u32, u32>,
    pid: u32,
    comm: Seq<char>,
)
    ensures
        ({
            let stamped = node.client_id is Some && clients.contains_key(node.client_id->0)
                && clients[node.client_id->0] == pid;
            let stated = node.pid is Some && node.pid->0 == pid;
            let named = comm.len() > 0 && (node.binary == comm || node.name == comm);
            let r = rank(node, clients, pid, comm);
            &&& r == 0 <==> stamped
            &&& r == 1 <==> !stamped && stated
            &&& r == 2 <==> !stamped && !stated && named
            &&& r == 3 <==> !stamped && !stated && !named
        }),
{
}

/// There is at most one pick; it belongs to the process, every node that can be
/// trusted more would have been it, and so would an earlier equal.
pub proof fn law_the_pick_is_the_first_of_the_best(
    nodes: Seq<NodeView>,
    clients: Map<u32, u32>,
    pid: u32,
    comm: Seq<char>,
    i: int,
    j: int,
)
    requires
        is_pick(nodes, clients, pid, comm, i),
        0 <= j < nodes.len(),
    ensures
        0 <= i < nodes.len(),
        rank(nodes[i], clients, pid, comm) < 3,
        rank(nodes[i], clients, pid, comm) <= rank(nodes[j], clients, pid, comm),
        j < i ==> rank(nodes[i], clients, pid, comm) < rank(nodes[j], clients, pid, comm),
        is_pick(nodes, clients, pid, comm, j) ==> i == j,
{
}

/// A node is what its properties say, each under its own.
pub proof fn law_nodes_are_what_they_say(id: u32, props: GlobalProps)
    ensures
        node_of(id, props).id == id,
        node_of(id, props).client_id == number_of(props.client_id),
        node_of(id, props).pid == number_of(props.process_id),
        node_of(id, props).binary == text_of(props.binary),
        node_of(id, props).name == text_of(props.name),
        is_output_stream(props) <==> props.sec_pid is None && (props.media_class matches Some(c)
            && c@ == "Stream/Output/Audio"@),
{
}

/// A stream's record is known by what it holds.
pub proof fn law_records_are_nodes(node: NodeRec)
    ensures
        node@.id == node.id,
        node@.client_id == node.client_id,
        node@.pid == node.pid,
        node@.binary == node.binary@,
        node@.name == node.name@,
{
}

/// A property's number is the one that it spells, up to 32 bits; its text is as
/// it stands.
pub proof fn law_properties_are_taken_as_spelled(p: String)
    ensures
        number_of(Some(p)) is Some <==> unsigned_value(p@, 4_294_967_295) is Some,
        number_of(Some(p)) matches Some(n) ==> unsigned_value(p@, 4_294_967_295) == Some(n as nat),
        number_of(None) is None,
        text_of(Some(p)) == p@,
        text_of(None).len() == 0,
{
}

} // verus!
