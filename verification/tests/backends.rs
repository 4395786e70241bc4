use focus_capture::backend_stub;
use focus_capture::capture::{
    convert as convert_block, deliver, drive_step, engage_act, engage_capturing, engage_next,
    worker_error, Engage, EngageAct, WorkerShared, PHASE_FINISHED, PHASE_RUNNING, PHASE_STARTING,
};
use focus_capture::downmix::{convert_interleaved_to_mono, downmix_planar, Raw};
use focus_capture::loopback;
use focus_capture::pod::{
    active_window, build_format_pod, chunk_window, connect_pods, parse_format_pod, property_number,
    Fmt, SpaIds,
};
use focus_capture::registry::{GlobalProps, Registry};
use focus_capture::resample::SincResampler;
use focus_capture::ring::AudioRing;
use focus_capture::stream;
use focus_capture::tap;
use focus_capture::trace;

fn ids() -> SpaIds {
    SpaIds {
        type_object: 15,
        type_id: 3,
        type_int: 4,
        object_format: 0x40003,
        key_media_type: 1,
        key_media_subtype: 2,
        key_format: 0x10001,
        key_rate: 0x10003,
        key_channels: 0x10004,
        media_type_audio: 1,
        media_subtype_raw: 1,
        format_f32: 0x11b,
        format_s16: 0x103,
        format_s32: 0x10b,
    }
}

/// Sums raw samples as plain numbers.
fn plus(a: f32, x: Raw) -> f32 {
    match x {
        Raw::Float(bits) => a + f32::from_bits(bits),
        Raw::Short(n) => a + n as f32,
        Raw::Long(n) => a + n as f32,
    }
}

fn mean(a: f32, n: usize) -> f32 {
    a / n as f32
}

fn convert(src: &[u8], frames: usize, channels: usize, bits: u16, float: bool) -> Vec<f32> {
    let mut out = vec![7.0f32];
    convert_interleaved_to_mono(src, frames, channels, bits, float, 0.0f32, &plus, &mean, 0.0, &mut out);
    assert_eq!(out[0], 7.0);
    out.split_off(1)
}

/// Hands samples to the ring without conversion.
fn held(ring: &mut AudioRing<f32>) -> Vec<f32> {
    let n = ring.available();
    let mut out = vec![0.0f32; n];
    ring.mix_mono_into(
        &mut out,
        n,
        1,
        n,
        |_: usize| 1.0f32,
        &|g: f32| g == 0.0,
        &|a: f32, s: f32, g: f32| a + s * g,
    );
    out
}

#[test]
fn the_stub_captures_nothing() {
    assert_eq!(backend_stub::foreground_pid(), None);
    assert_eq!(backend_stub::current_pid(), 0);
    assert_eq!(backend_stub::process_name_by_pid(7), "");
    assert_eq!(
        backend_stub::spawn_error(),
        "process capture is implemented for Windows / Linux (PipeWire) / macOS 14.4+ only"
    );
}

#[test]
fn workers_report_their_life() {
    let mut w = WorkerShared::new();
    assert_eq!((w.phase, w.rate, w.channels, w.discontinuities), (PHASE_STARTING, 0, 0, 0));
    assert_eq!(worker_error(&w), "未知错误");
    w.announce(96_000, 6);
    assert_eq!((w.phase, w.rate, w.channels), (PHASE_RUNNING, 96_000, 6));
    w.conclude(false, Err("gone".to_string()));
    assert_eq!((worker_error(&w).as_str(), w.phase), ("gone", PHASE_FINISHED));
    // What fails after the user asked for the stop is no error.
    let mut stopped = WorkerShared::new();
    stopped.conclude(true, Err("gone".to_string()));
    assert_eq!((stopped.error.as_str(), stopped.phase), ("", PHASE_FINISHED));
}

#[test]
fn a_gone_target_ends_the_worker() {
    let mut w = WorkerShared::new();
    assert!(!drive_step(false, false, true, &mut w));
    assert!(drive_step(false, true, true, &mut w));
    assert!(drive_step(true, false, true, &mut w));
    assert!(drive_step(true, false, false, &mut w));
    assert!(!w.target_exited);
    assert!(drive_step(false, false, false, &mut w));
    assert!(w.target_exited);
    assert!(!drive_step(false, false, true, &mut w));
    assert!(w.target_exited);
}

#[test]
fn a_racing_start_ends_stopped() {
    assert!(engage_capturing(false, false));
    assert!(!engage_capturing(true, false));
    // Every interleaving of the worker with a stopper that raises the stop
    // flag, then lowers the mixing flag.
    for mask in 0u32..128 {
        let (mut stop, mut mixing, mut at, mut stopper) = (false, false, Engage::Check, 0);
        let mut bits = mask;
        while at != Engage::Done || stopper < 2 {
            let stopper_turn = (bits & 1 == 1 && stopper < 2) || at == Engage::Done;
            bits >>= 1;
            if stopper_turn {
                if stopper == 0 {
                    stop = true;
                } else {
                    mixing = false;
                }
                stopper += 1;
            } else {
                let seen = stop;
                if let EngageAct::Store(b) = engage_act(at) {
                    mixing = b;
                }
                at = engage_next(at, seen);
            }
        }
        assert!(!mixing, "interleaving {mask:b}");
    }
}

#[test]
fn samples_reach_the_ring_converted() {
    let mut ring = AudioRing::new(8);
    let mut scratch = Vec::new();
    let join = |a: f32, x: f32| a + x;
    let avg = |a: f32, n: u32| a / n as f32;
    let tap = |a: f32, p: (f32, f32)| a + p.0 * p.1;
    let mut none = None;
    deliver(&mut none, &[1.0, 2.0], &mut scratch, &mut ring, 0.0f32, &join, &avg, &tap);
    let mut halved = Some(SincResampler::new(96_000, 48_000, 0.0f32, vec![0.0; 4096]));
    deliver(&mut halved, &[4.0, 6.0, 1.0], &mut scratch, &mut ring, 0.0f32, &join, &avg, &tap);
    assert_eq!(held(&mut ring), vec![1.0, 2.0, 5.0]);
    // The sample that was left over opens the next group.
    assert!(convert_block(&mut halved, &[3.0], &mut scratch, 0.0f32, &join, &avg, &tap));
    assert_eq!(scratch, vec![2.0]);
    assert!(!convert_block(&mut none, &[3.0], &mut scratch, 0.0f32, &join, &avg, &tap));
    assert_eq!(scratch, vec![2.0]);
}

#[test]
fn frames_are_averaged_in_every_format() {
    let floats: Vec<u8> = [1.0f32, 3.0, -2.0, 0.0].iter().flat_map(|x| x.to_le_bytes()).collect();
    assert_eq!(convert(&floats, 2, 2, 32, true), vec![2.0, -1.0]);
    let shorts: Vec<u8> = [100i16, -300, 32767, 1].iter().flat_map(|x| x.to_le_bytes()).collect();
    assert_eq!(convert(&shorts, 2, 2, 16, false), vec![-100.0, 16384.0]);
    let longs: Vec<u8> = [-65536i32, 65536].iter().flat_map(|x| x.to_le_bytes()).collect();
    assert_eq!(convert(&longs, 1, 2, 32, false), vec![0.0]);
    assert_eq!(convert(&longs, 2, 0, 32, false), vec![-65536.0, 65536.0]);
    // A format that is not understood is silent.
    assert_eq!(convert(&[], 3, 2, 24, false), vec![0.0, 0.0, 0.0]);
    assert_eq!(convert(&[], 1, 2, 16, true), vec![0.0]);
}

#[test]
fn short_planes_count_as_silent() {
    let planes = vec![vec![2.0f32, 4.0], vec![6.0]];
    let mut out = Vec::new();
    downmix_planar(&planes, 2, 0.0, 0.0f32, &|a: f32, x: f32| a + x, &mean, &mut out);
    assert_eq!(out, vec![4.0, 2.0]);
}

#[test]
fn format_pods_are_read_back() {
    let pod = build_format_pod(&ids(), ids().format_s16, 44_100, 6);
    assert_eq!(pod.len(), 16 + 5 * 24);
    assert_eq!(&pod[..8], &[128, 0, 0, 0, 15, 0, 0, 0]);
    let fmt = parse_format_pod(&ids(), &pod).unwrap();
    assert_eq!(fmt, Fmt { rate: 44_100, channels: 6, kind: 1 });
    assert_eq!((fmt.bits(), fmt.frame_bytes()), (16, 12));
    assert_eq!(parse_format_pod(&ids(), &pod[..131]), None);
    assert_eq!(parse_format_pod(&ids(), &[]), None);
    let unknown = build_format_pod(&ids(), 0x777, 44_100, 6);
    assert_eq!(parse_format_pod(&ids(), &unknown), None);
    let silent = build_format_pod(&ids(), ids().format_f32, 44_100, 0);
    assert_eq!(parse_format_pod(&ids(), &silent), None);
}

#[test]
fn formats_are_offered_best_first() {
    let offers = connect_pods(&ids(), None);
    assert_eq!(offers.len(), 24);
    let read: Vec<(u8, u32, usize)> = offers
        .iter()
        .map(|p| parse_format_pod(&ids(), p).unwrap())
        .map(|f| (f.kind, f.rate, f.channels))
        .collect();
    assert_eq!(
        &read[..8],
        &[
            (0, 48_000, 2),
            (0, 48_000, 1),
            (0, 44_100, 2),
            (0, 44_100, 1),
            (0, 96_000, 2),
            (0, 96_000, 1),
            (0, 192_000, 2),
            (0, 192_000, 1),
        ]
    );
    assert_eq!((read[8].0, read[16].0), (2, 1));
    assert_eq!(connect_pods(&ids(), Some(vec![1, 2, 3])), vec![vec![1, 2, 3]]);
}

#[test]
fn negotiated_formats_are_those_of_the_format_parameter() {
    let pod = build_format_pod(&ids(), ids().format_s32, 48_000, 2);
    let fmt = Fmt { rate: 48_000, channels: 2, kind: 2 };
    assert_eq!(stream::negotiated(&ids(), true, Some(&pod)), Some(fmt));
    assert_eq!(stream::negotiated(&ids(), false, Some(&pod)), None);
    assert_eq!(stream::negotiated(&ids(), true, None), None);
    assert!(stream::announces(false, 48_000));
    assert!(!stream::announces(true, 48_000));
    assert!(!stream::announces(false, 0));
}

#[test]
fn chunks_are_cut_to_whole_frames() {
    let fmt = Fmt { rate: 48_000, channels: 2, kind: 1 };
    assert_eq!(chunk_window(100, 10, 50, &fmt), (10, 12));
    assert_eq!(chunk_window(100, 90, 50, &fmt), (90, 2));
    assert_eq!(chunk_window(100, 400, 50, &fmt), (100, 0));
}

#[test]
fn window_properties_are_decoded() {
    assert_eq!(property_number(&[1, 2, 0, 0, 9]), Some(513));
    assert_eq!(property_number(&[1, 2, 0]), None);
    assert_eq!(active_window(&[0, 0, 0, 0]), None);
    assert_eq!(active_window(&[0, 0, 0, 1]), Some(0x0100_0000));
}

fn stream_props(client: Option<&str>, pid: Option<&str>, binary: &str, name: &str) -> GlobalProps {
    GlobalProps {
        sec_pid: None,
        media_class: Some("Stream/Output/Audio".to_string()),
        client_id: client.map(str::to_string),
        process_id: pid.map(str::to_string),
        binary: Some(binary.to_string()),
        name: Some(name.to_string()),
    }
}

fn client_props(pid: &str) -> GlobalProps {
    GlobalProps {
        sec_pid: Some(pid.to_string()),
        media_class: None,
        client_id: None,
        process_id: None,
        binary: None,
        name: None,
    }
}

#[test]
fn output_streams_are_attributed() {
    let mut r = Registry::new();
    assert_eq!(r.pick(42, "player"), None);
    r.observe(30, &client_props("42"));
    r.observe(31, &client_props("no number"));
    r.observe(60, &stream_props(Some("31"), Some("7"), "other", "Other"));
    assert_eq!(r.pick(42, "player"), None);
    r.observe(61, &stream_props(Some("30"), None, "", ""));
    r.observe(62, &stream_props(None, Some("42"), "", ""));
    r.observe(63, &stream_props(None, None, "player", "x"));
    let i = r.pick(42, "player").unwrap();
    assert_eq!((r.node_id(i), r.node_name(i)), (61, String::new()));
    assert_eq!(r.node_id(r.pick(7, "").unwrap()), 60);
    // By name, binary or application name.
    assert_eq!(r.node_id(r.pick(1, "player").unwrap()), 63);
    assert_eq!(r.node_id(r.pick(1, "Other").unwrap()), 60);
    // An empty name matches nothing.
    assert_eq!(r.pick(1, ""), None);
    // Later streams do not change the pick.
    r.observe(64, &stream_props(None, Some("42"), "player", "player"));
    assert_eq!(r.node_id(r.pick(42, "player").unwrap()), 61);
    // A better rule beats an earlier place.
    let mut late = Registry::new();
    late.observe(70, &stream_props(None, None, "player", "player"));
    assert_eq!(late.node_id(late.pick(42, "player").unwrap()), 70);
    late.observe(71, &stream_props(None, Some("42"), "", ""));
    assert_eq!(late.node_id(late.pick(42, "player").unwrap()), 71);
    late.observe(72, &stream_props(Some("30"), None, "", ""));
    assert_eq!(late.node_id(late.pick(42, "player").unwrap()), 71);
    late.observe(30, &client_props("42"));
    assert_eq!(late.node_id(late.pick(42, "player").unwrap()), 72);
    late.observe(73, &stream_props(Some("30"), None, "", ""));
    assert_eq!(late.node_id(late.pick(42, "player").unwrap()), 72);
    let ranks: Vec<u8> = (0..4).map(|i| late.node_rank(i, 42, "player")).collect();
    assert_eq!(ranks, vec![2, 1, 0, 0]);
    assert_eq!(late.node_rank(0, 42, "other"), 3);
    // Streams of another class are no candidates.
    let mut input = stream_props(None, Some("99"), "", "");
    input.media_class = Some("Stream/Input/Audio".to_string());
    r.observe(65, &input);
    assert_eq!(r.pick(99, ""), None);
}

#[test]
fn the_pipewire_worker_takes_its_steps() {
    let mut step = stream::Step::MakeLoop;
    for _ in 0..8 {
        step = stream::advance(step, Ok(())).unwrap();
    }
    assert_eq!(step, stream::Step::Drive);
    for (s, text) in [
        (stream::Step::MakeLoop, "PipeWire MainLoop: e"),
        (stream::Step::MakeContext, "PipeWire Context: e"),
        (stream::Step::Connect, "PipeWire 连接失败（是否在 PipeWire 会话中？）: e"),
        (stream::Step::GetRegistry, "PipeWire registry: e"),
        (stream::Step::MakeStream, "PipeWire Stream: e"),
        (stream::Step::Listen, "PipeWire stream listener: e"),
        (stream::Step::Attach, "PipeWire 连接目标节点失败: e"),
        (stream::Step::Search, "e"),
    ] {
        assert_eq!(stream::advance(s, Err("e".to_string())).unwrap_err(), text);
    }
    assert_eq!(
        stream::missing_stream(42),
        "PipeWire 未找到 pid 42 的活动音频输出流（应用需正在发声；Wayland 会话不支持前台识别）"
    );
    assert_eq!(stream::await_step(true, u128::MAX, 0), stream::Await::Found);
    assert_eq!(stream::await_step(false, 1, stream::SEARCH_BUDGET_NS), stream::Await::Iterate);
    assert_eq!(
        stream::await_step(false, stream::ADOPT_BUDGET_NS, stream::ADOPT_BUDGET_NS),
        stream::Await::Missing
    );
    // A lesser match waits until every stream is listed.
    assert_eq!(stream::search_step(true, true, false, 0), stream::Await::Found);
    assert_eq!(stream::search_step(true, false, false, 0), stream::Await::Iterate);
    assert_eq!(stream::search_step(true, false, true, 0), stream::Await::Found);
    assert_eq!(
        stream::search_step(true, false, false, stream::SEARCH_BUDGET_NS),
        stream::Await::Found
    );
    assert_eq!(stream::search_step(false, false, true, 0), stream::Await::Iterate);
    assert_eq!(
        stream::search_step(false, false, true, stream::SEARCH_BUDGET_NS),
        stream::Await::Missing
    );
    let mut slot = None;
    stream::adopt(&mut slot, vec![1]);
    stream::adopt(&mut slot, vec![2]);
    assert_eq!(slot, Some(vec![1]));
    assert_eq!(stream::comm_name(Some("player\n".to_string())), "player");
    assert_eq!(stream::comm_name(None), "");
}

#[test]
fn pipewire_buffers_reach_the_ring() {
    let mut ring = AudioRing::new(8);
    let (mut mono, mut scratch) = (Vec::new(), Vec::new());
    let mut none: Option<SincResampler<f32>> = None;
    let fmt = Some(Fmt { rate: 48_000, channels: 2, kind: 1 });
    let bytes: Vec<u8> = [9i16, 1, 3, 5, 7].iter().flat_map(|x| x.to_le_bytes()).collect();
    let join = |a: f32, x: f32| a + x;
    let avg = |a: f32, n: u32| a / n as f32;
    let tap = |a: f32, p: (f32, f32)| a + p.0 * p.1;
    let mut take = |stopped: bool, fmt: Option<Fmt>, b: Option<&[u8]>, ring: &mut AudioRing<f32>| {
        stream::take_chunk(
            stopped, fmt, b, 2, 9, 0.0f32, 0.0f32, &plus, &mean, &mut mono, &mut none, &mut scratch,
            ring, 0.0f32, &join, &avg, &tap,
        )
    };
    assert!(take(true, fmt, Some(&bytes), &mut ring));
    assert!(!take(false, None, Some(&bytes), &mut ring));
    assert!(!take(false, fmt, None, &mut ring));
    assert_eq!(ring.available(), 0);
    assert!(!take(false, fmt, Some(&bytes), &mut ring));
    assert_eq!(held(&mut ring), vec![2.0, 6.0]);
}

#[test]
fn the_loopback_worker_takes_its_steps() {
    let mut step = loopback::Step::InitCom;
    let mut seen = vec![step];
    while step != loopback::Step::Packets {
        step = loopback::advance(step, Ok(()), 1).unwrap();
        seen.push(step);
    }
    assert_eq!(
        seen,
        vec![
            loopback::Step::InitCom,
            loopback::Step::OpenTarget,
            loopback::Step::CreateEvent,
            loopback::Step::Activate,
            loopback::Step::AwaitActivation,
            loopback::Step::FetchResult,
            loopback::Step::CheckResult,
            loopback::Step::CastClient,
            loopback::Step::InitFirst,
            loopback::Step::CreateBufferEvent,
            loopback::Step::SetEvent,
            loopback::Step::GetService,
            loopback::Step::Start,
            loopback::Step::Packets,
        ]
    );
    let fail = |s: loopback::Step| loopback::advance(s, Err("e".to_string()), 5);
    assert_eq!(fail(loopback::Step::InitFirst), Ok(loopback::Step::InitSecond));
    assert_eq!(loopback::advance(loopback::Step::InitSecond, Ok(()), 5), Ok(loopback::Step::CreateBufferEvent));
    for (s, text) in [
        (loopback::Step::InitCom, "CoInitializeEx failed: e"),
        (
            loopback::Step::OpenTarget,
            "OpenProcess(pid=5) 失败: e。若目标以管理员权限运行，MicYou 也需以管理员运行",
        ),
        (loopback::Step::CreateEvent, "CreateEventW: e"),
        (loopback::Step::Activate, "ActivateAudioInterfaceAsync: e"),
        (loopback::Step::AwaitActivation, "e"),
        (loopback::Step::FetchResult, "GetActivateResult: e"),
        (loopback::Step::CheckResult, "e"),
        (loopback::Step::CastClient, "cast IAudioClient: e"),
        (
            loopback::Step::InitSecond,
            "IAudioClient::Initialize 对 48kHz-float32 与 44.1kHz-PCM16 均失败（音频引擎异常）",
        ),
        (loopback::Step::CreateBufferEvent, "CreateEventW(buffer): e"),
        (loopback::Step::SetEvent, "SetEventHandle: e"),
        (loopback::Step::GetService, "GetService(IAudioCaptureClient): e"),
        (loopback::Step::Start, "IAudioClient::Start: e"),
    ] {
        assert_eq!(fail(s).unwrap_err(), text);
    }
}

#[test]
fn activation_failures_are_explained() {
    assert_eq!(loopback::awaited(loopback::Wait::Signaled), Ok(()));
    assert_eq!(
        loopback::awaited(loopback::Wait::TimedOut).unwrap_err(),
        "音频引擎激活超时（5s）"
    );
    assert_eq!(
        loopback::awaited(loopback::Wait::Other("x".to_string())).unwrap_err(),
        "等待激活完成失败: x"
    );
    assert_eq!(loopback::activation(0, true, "a.exe"), Ok(()));
    assert_eq!(loopback::activation(1, true, "a.exe"), Ok(()));
    assert_eq!(loopback::activation(0, false, "a.exe").unwrap_err(), "激活结果为空");
    for (code, text) in [
        (
            0x8007_0005u32,
            "进程环回激活失败 (HRESULT 0x80070005, a.exe): 拒绝访问：目标以更高权限运行（试试以管理员身份运行 MicYou），或为受 DRM 保护的内容",
        ),
        (
            0x8007_0057,
            "进程环回激活失败 (HRESULT 0x80070057, a.exe): 激活参数被拒绝（系统音频服务异常？）",
        ),
        (
            0x8007_0490,
            "进程环回激活失败 (HRESULT 0x80070490, a.exe): 音频引擎未找到目标进程的音频端点（稍后重试；若持续失败请确认系统为 Windows 10 2004 / build 19041 及以上）",
        ),
        (
            0x8889_000b,
            "进程环回激活失败 (HRESULT 0x8889000b, a.exe): 端点类型错误（系统不支持进程环回？需 Windows 10 2004+）",
        ),
        (0x8000_4005, "进程环回激活失败 (HRESULT 0x80004005, a.exe): 未知原因"),
    ] {
        assert_eq!(loopback::activation(code, true, "a.exe").unwrap_err(), text);
    }
}

#[test]
fn loopback_formats_are_described() {
    let f = loopback::wave_format(&loopback::first_format());
    assert_eq!((f.tag, f.channels, f.rate), (3, 2, 48_000));
    assert_eq!((f.block_align, f.avg_bytes, f.bits), (8, 384_000, 32));
    let s = loopback::wave_format(&loopback::second_format());
    assert_eq!((s.tag, s.channels, s.rate), (1, 2, 44_100));
    assert_eq!((s.block_align, s.avg_bytes, s.bits), (4, 176_400, 16));
    assert_eq!(loopback::window_pid(true, 5), Some(5));
    assert_eq!(loopback::window_pid(true, 0), None);
    assert_eq!(loopback::window_pid(false, 5), None);
}

#[test]
fn loopback_packets_reach_the_ring() {
    let mut ring = AudioRing::new(16);
    let (mut mono, mut scratch, mut disc) = (Vec::new(), Vec::new(), 0u32);
    let mut none: Option<SincResampler<f32>> = None;
    let fmt = loopback::second_format();
    let bytes: Vec<u8> = [2i16, 4, 6, 8].iter().flat_map(|x| x.to_le_bytes()).collect();
    let join = |a: f32, x: f32| a + x;
    let avg = |a: f32, n: u32| a / n as f32;
    let tap = |a: f32, p: (f32, f32)| a + p.0 * p.1;
    for (src, frames, flags) in [
        (Some(bytes.as_slice()), 2u32, 0u32),
        (Some(bytes.as_slice()), 1, loopback::FLAG_SILENT),
        (None, 2, loopback::FLAG_DISCONTINUITY),
        (Some(bytes.as_slice()), 0, loopback::FLAG_DISCONTINUITY),
        (Some(bytes.as_slice()), 1, loopback::FLAG_DISCONTINUITY),
    ] {
        loopback::take_packet(
            src, frames, flags, &fmt, 0.0f32, 0.0f32, &plus, &mean, &mut mono, &mut disc, &mut none,
            &mut scratch, &mut ring, 0.0f32, &join, &avg, &tap,
        );
    }
    assert_eq!(held(&mut ring), vec![3.0, 7.0, 0.0, 0.0, 0.0, 3.0]);
    assert_eq!(disc, 2);
}

#[test]
fn the_packet_loop_decides() {
    assert_eq!(loopback::after_wait(loopback::Wait::Signaled), Ok(true));
    assert_eq!(loopback::after_wait(loopback::Wait::TimedOut), Ok(false));
    assert_eq!(
        loopback::after_wait(loopback::Wait::Other("w".to_string())).unwrap_err(),
        "WaitForSingleObject: w"
    );
    let text = |c| loopback::packet_complaint(c, "e");
    assert_eq!(text(loopback::PacketCall::Size), "采集循环错误: GetNextPacketSize: e");
    assert_eq!(text(loopback::PacketCall::Take), "采集循环错误: GetBuffer: e");
    assert_eq!(text(loopback::PacketCall::Release), "采集循环错误: ReleaseBuffer: e");
    let mut w = WorkerShared::new();
    assert!(!loopback::after_packets(false, &mut w));
    assert!(!w.target_exited);
    assert!(loopback::after_packets(true, &mut w));
    assert!(w.target_exited);
}

#[test]
fn loopback_teardown_keeps_its_order() {
    assert_eq!(
        loopback::teardown(&loopback::held(loopback::Step::Packets)),
        vec![
            loopback::Undo::StopClient,
            loopback::Undo::ReleaseClient,
            loopback::Undo::CloseBufferEvent,
            loopback::Undo::CloseProcess,
            loopback::Undo::UninitCom,
        ]
    );
    assert_eq!(loopback::teardown(&loopback::held(loopback::Step::InitCom)), vec![]);
    assert_eq!(loopback::teardown(&loopback::held(loopback::Step::OpenTarget)), vec![loopback::Undo::UninitCom]);
    assert_eq!(loopback::teardown(&loopback::held(loopback::Step::Activate)), vec![loopback::Undo::CloseProcess, loopback::Undo::UninitCom]);
    assert_eq!(
        loopback::teardown(&loopback::held(loopback::Step::InitSecond)),
        vec![loopback::Undo::ReleaseClient, loopback::Undo::CloseProcess, loopback::Undo::UninitCom]
    );
}

#[test]
fn the_tap_worker_takes_its_steps() {
    let mut step = tap::Step::MakeDescription;
    for _ in 0..7 {
        step = tap::advance(step, true, 0, 0).unwrap();
    }
    assert_eq!(step, tap::Step::Run);
    assert_eq!(tap::advance(tap::Step::ReadInput, false, -50, 0), Ok(tap::Step::ReadGlobal));
    assert_eq!(tap::advance(tap::Step::ReadGlobal, true, 0, -50), Ok(tap::Step::CreateProc));
    for (s, text) in [
        (tap::Step::MakeDescription, "CATapDescriptionCreate 失败"),
        (tap::Step::MakeNumber, "CFNumberCreate 失败"),
        (tap::Step::MakeArray, "CFArrayCreate 失败"),
        (
            tap::Step::CreateTap,
            "AudioHardwareCreateProcessTap 失败 (OSStatus -2147483648)：目标进程可能已退出或拒绝被捕获",
        ),
        (tap::Step::ReadGlobal, "读取 tap 流格式失败 (OSStatus 7/-2147483648)"),
        (tap::Step::CreateProc, "AudioDeviceCreateIOProcID 失败 (OSStatus -2147483648)"),
        (tap::Step::StartDevice, "AudioDeviceStart 失败 (OSStatus -2147483648)"),
    ] {
        assert_eq!(tap::advance(s, false, i32::MIN, 7).unwrap_err(), text);
    }
    assert_eq!(tap::teardown(tap::Step::CreateTap), vec![]);
    assert_eq!(tap::teardown(tap::Step::ReadGlobal), vec![tap::Undo::DestroyTap]);
    assert_eq!(tap::teardown(tap::Step::CreateProc), vec![tap::Undo::FreeState, tap::Undo::DestroyTap]);
    assert_eq!(
        tap::teardown(tap::Step::Run),
        vec![tap::Undo::StopDevice, tap::Undo::DestroyProc, tap::Undo::FreeState, tap::Undo::DestroyTap]
    );
}

#[test]
fn tap_streams_are_described() {
    assert_eq!(tap::fourcc(b"fmt "), 0x666d_7420);
    assert_eq!(tap::fourcc(b"inpt"), 0x696e_7074);
    assert_eq!(tap::frontmost_pid(501), Some(501));
    assert_eq!(tap::frontmost_pid(0), None);
    assert_eq!(tap::frontmost_pid(-1), None);
    assert_eq!(tap::path_name(b"/Apps/Music.app/Music\0\0", 21), "Music");
    assert_eq!(tap::path_name(b"a\\b\0", 3), "a\\b");
    assert_eq!(tap::path_name(b"x", 0), "");
    assert_eq!(
        tap::missing_symbol("AudioHardwareCreateProcessTap"),
        "系统缺少 AudioHardwareCreateProcessTap：需要 macOS 14.4 或更新版本"
    );
    assert_eq!(tap::resolved(true, true, true, true), Ok(()));
    for (found, name) in [
        ((false, false, false, false), "CATapDescriptionCreate"),
        ((true, false, true, false), "CATapDescriptionSetProcessIDs"),
        ((true, true, false, false), "AudioHardwareCreateProcessTap"),
        ((true, true, true, false), "AudioHardwareDestroyProcessTap"),
    ] {
        assert_eq!(
            tap::resolved(found.0, found.1, found.2, found.3).unwrap_err(),
            tap::missing_symbol(name)
        );
    }
    let f = tap::tap_format(44_100, 0, 0x1 | 0x8, 32).unwrap();
    assert_eq!((f.rate, f.channels, f.interleaved), (44_100, 1, true));
    assert!(!tap::tap_format(44_100, 2, 0x1 | 0x4, 32).unwrap().interleaved);
    assert_eq!(
        tap::tap_format(44_100, 2, 0x4, 32).unwrap_err(),
        "tap 流格式非 Float32（不支持）"
    );
    assert!(tap::tap_format(44_100, 2, 0x1, 16).is_err());
}

#[test]
fn tap_buffers_reach_the_ring() {
    let mut ring = AudioRing::new(16);
    let (mut mono, mut scratch) = (Vec::new(), Vec::new());
    let mut none: Option<SincResampler<f32>> = None;
    let add = |a: f32, x: f32| a + x;
    let avg = |a: f32, n: u32| a / n as f32;
    let t = |a: f32, p: (f32, f32)| a + p.0 * p.1;
    let mut take = |stopped: bool, interleaved: bool, first: Option<u32>, planes: &Vec<Vec<f32>>, ring: &mut AudioRing<f32>| {
        let fmt = tap::TapFormat { rate: 48_000, channels: 2, interleaved };
        tap::take_buffers(
            stopped, &fmt, first, planes, 0.0f32, 0.0f32, &add, &mean, &mut mono, &mut none,
            &mut scratch, ring, 0.0f32, &add, &avg, &t,
        )
    };
    let one = vec![vec![1.0f32, 3.0, 5.0, 7.0, 9.0]];
    let two = vec![vec![1.0f32, 3.0], vec![5.0, 7.0]];
    take(true, true, Some(20), &one, &mut ring);
    take(false, true, None, &one, &mut ring);
    take(false, true, Some(7), &one, &mut ring);
    assert_eq!(ring.available(), 0);
    take(false, true, Some(20), &one, &mut ring);
    take(false, false, Some(8), &two, &mut ring);
    assert_eq!(held(&mut ring), vec![2.0, 6.0, 3.0, 5.0]);
}

#[test]
fn tracing_is_opt_in() {
    assert!(trace::enabled(Some("1")));
    assert!(trace::enabled(Some("yes")));
    assert!(!trace::enabled(Some("0")));
    assert!(!trace::enabled(Some("")));
    assert!(!trace::enabled(None));
    assert_eq!(trace::trace_line(17, "ThreadId(3)", "hi"), "[fc 17 tid=ThreadId(3)] hi");
    let some = |s: &str| Some(s.to_string());
    assert_eq!(trace::trace_dir(some("a"), some("b")), some("a"));
    assert_eq!(trace::trace_dir(None, some("b")), some("b"));
    assert_eq!(trace::trace_dir(None, None), None);
}

#[test]
fn faults_are_reported_with_their_module() {
    assert_eq!(
        trace::fault_report(0xc000_0374, "0x7ff", Some("C:\\Windows\\System32/ntdll.dll")),
        "!!! UNHANDLED EXCEPTION code=0xc0000374 address=0x7ff module=ntdll.dll — last steps above bracket the fault"
    );
    assert_eq!(
        trace::fault_report(5, "0x0", None),
        "!!! UNHANDLED EXCEPTION code=0x00000005 address=0x0 module=<unknown> — last steps above bracket the fault"
    );
    let mut handle = 0isize;
    assert!(trace::install(handle));
    assert_eq!(trace::uninstall(&mut handle), None);
    handle = 9;
    assert!(!trace::install(handle));
    assert_eq!(trace::uninstall(&mut handle), Some(9));
    assert_eq!(trace::uninstall(&mut handle), None);
}
