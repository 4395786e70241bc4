//! What each step of the session does and what it leaves alone, whatever the
//! session.
use crate::abi::{acts_of, code_of, mpl_result_t, notice, value_len, Act, ActView};
use crate::capture::{act_at, engage_after, reason, Engage, EngageAct, WorkerShared};
use crate::hotkey::parsed;
use crate::json::{json_object, number_under, text_under, tick_said, JsonLeaf, LeafView};
use crate::message::{command, is_press, press_counts, tick_in, Command};
use crate::session::{
    finish_acts, finished, finishing, finishing_acts, fresh, held_of, is_reaped, phase_word,
    reap_acts, reaped, refusal, report_of, start_acts, started, status_act, stop_acts, stopped,
    status_of, target_of, tick_acts, ticked, unstarted, verdict, Phase, Registration, Report, Session,
    SessionView, ThreadEnd, Verdict, VerdictView,
};
use crate::settings::{
    applied, apply_asks, combo_stored, handle_for, loaded, notify_stored, planned, ready_line,
    registered, replanned, to_register, unloaded,
};
use crate::text::{decimal, unsigned_value};
use vstd::prelude::*;

verus! {

// ───────────────────────────────── the host ────────────────────────────────
/// A notification goes out, as it is, exactly where the user wants them.
pub proof fn law_notices_are_optional(title: Seq<char>, body: Seq<char>)
    ensures
        notice(true, title, body) == seq![ActView::Notify(title, body)],
        notice(false, title, body).len() == 0,
{
}

/// A list of acts is known act by act.
pub proof fn law_acts_are_seen_one_by_one(acts: Seq<Act>, i: int)
    requires
        0 <= i < acts.len(),
    ensures
        acts_of(acts).len() == acts.len(),
        acts[i] matches Act::Log(n, t) ==> acts_of(acts)[i] == ActView::Log(n, t@),
        acts[i] matches Act::Notify(t, b) ==> acts_of(acts)[i] == ActView::Notify(t@, b@),
        acts[i] matches Act::SetConfig(k, x) ==> acts_of(acts)[i] == ActView::SetConfig(k@, x@),
        acts[i] matches Act::SetPanelIcon(p, x) ==> acts_of(acts)[i] == ActView::SetPanelIcon(
            p@,
            x@,
        ),
        acts[i] matches Act::ClearInterval(id) ==> acts_of(acts)[i] == ActView::ClearInterval(id),
        acts[i] is RaiseStop ==> acts_of(acts)[i] is RaiseStop,
        acts[i] matches Act::Mixing(on) ==> acts_of(acts)[i] == ActView::Mixing(on),
{
}

/// The host's value takes what it claims, and leaves the buffer's last byte.
pub proof fn law_values_stay_within_the_buffer(capacity: int, size: int)
    requires
        capacity >= 0,
        size >= 0,
    ensures
        size < capacity ==> value_len(capacity, size) == size,
        size >= capacity && capacity > 0 ==> value_len(capacity, size) + 1 == capacity,
        capacity == 0 ==> value_len(capacity, size) == 0,
{
}

/// Result codes are numbered from zero in the order of the ABI, and no two
/// share a number.
pub proof fn law_result_codes_differ(a: mpl_result_t, b: mpl_result_t)
    ensures
        0 <= code_of(a) <= 5,
        code_of(a) == code_of(b) <==> a == b,
        code_of(a) == 0 <==> a == mpl_result_t::MPL_OK,
{
}

/// The numbers that the host and the worker's reports go by.
pub proof fn law_the_numbers_of_the_host()
    ensures
        crate::abi::MPL_ABI_VERSION == 1,
        crate::abi::MPL_API_VERSION == 1,
        crate::abi::LOG_ERROR == 0,
        crate::abi::LOG_WARN == 1,
        crate::abi::LOG_INFO == 2,
        crate::abi::LOG_DEBUG == 3,
        crate::capture::PHASE_STARTING == 0,
        crate::capture::PHASE_RUNNING == 1,
        crate::capture::PHASE_FINISHED == 2,
{
}

// ──────────────────────────────── the worker ───────────────────────────────
/// A failed worker's own words are the reason, where it left any.
pub proof fn law_the_reason_is_the_worker_s(error: Seq<char>)
    ensures
        error.len() > 0 ==> reason(error) == error,
        error.len() == 0 ==> reason(error) == "未知错误"@,
{
}

/// The worker looks at the stop flag before it raises the mixing flag and after;
/// it raises it only where the first look found nothing, and takes it back just
/// where the second found something.
pub proof fn law_the_worker_looks_twice(stopped: bool)
    ensures
        act_at(Engage::Check) == EngageAct::Look,
        stopped ==> engage_after(Engage::Check, stopped) == Engage::Done,
        !stopped ==> act_at(engage_after(Engage::Check, stopped)) == EngageAct::Store(true),
        act_at(engage_after(Engage::Raise, stopped)) == EngageAct::Look,
        stopped ==> act_at(engage_after(engage_after(Engage::Raise, false), stopped))
            == EngageAct::Store(false),
        !stopped ==> engage_after(engage_after(Engage::Raise, false), stopped) == Engage::Done,
        engage_after(Engage::Lower, stopped) == Engage::Done,
        act_at(Engage::Done) == EngageAct::Rest,
        engage_after(Engage::Done, stopped) == Engage::Done,
{
}

// ───────────────────────────────── the press ───────────────────────────────
/// Every process but our own is captured when it is in the foreground, without
/// a word; there is no target exactly where there is no foreground process or it
/// is our own.
pub proof fn law_only_our_own_process_is_refused(on: bool, foreground: Option<u32>, own: u32)
    ensures
        target_of(foreground, own) is Some ==> target_of(foreground, own) == foreground,
        target_of(foreground, own) is None <==> foreground is None || foreground == Some(own),
        forall|pid: u32|
            pid != own ==> #[trigger] target_of(Some(pid), own) == Some(pid) && refusal(
                on,
                Some(pid),
                own,
            ).len() == 0,
{
}

/// A press without a target is answered: a log line where there is no foreground
/// process, and a notification where the user wants them.
pub proof fn law_a_refused_press_is_answered(on: bool, foreground: Option<u32>, own: u32)
    requires
        foreground is None || foreground == Some(own),
    ensures
        refusal(on, foreground, own).len() == (if foreground is None {
            1int
        } else {
            0
        }) + (if on {
            1int
        } else {
            0
        }),
        foreground is None ==> (refusal(on, foreground, own)[0] matches ActView::Log(n, _) && n
            == 1),
        on ==> refusal(on, foreground, own).last() is Notify,
{
}

/// A session that starts has what the press found, and nothing of the one
/// before: only the hotkey's side, the ticks and the wish for notifications
/// stay.
pub proof fn law_a_started_session_is_new(v: SessionView, pid: u32, name: Seq<char>, granted: u64)
    ensures
        ({
            let w = started(v, pid, name, granted);
            &&& w.phase == Phase::Starting
            &&& w.worker
            &&& w.pid == pid
            &&& w.rate == 0 && w.channels == 0
            &&& w.pending_report is None
            &&& w.last_error.len() == 0
            &&& name.len() > 0 ==> w.app == name
            &&& name.len() == 0 ==> w.app == "pid:"@ + decimal(pid as nat)
            &&& v.interval_id != 0 ==> w.interval_id == v.interval_id
            &&& v.interval_id == 0 ==> w.interval_id == granted
            &&& w.hotkey_id == v.hotkey_id && w.hotkey_text == v.hotkey_text && w.hotkey_ok
                == v.hotkey_ok && w.host_hotkey_active == v.host_hotkey_active && w.held == v.held
            &&& w.ticks == v.ticks && w.notify_on == v.notify_on
        }),
{
}

/// A start publishes the status and a log line, behind word of a missing timer.
pub proof fn law_a_start_is_published(v: SessionView, pid: u32, name: Seq<char>, granted: u64)
    ensures
        ({
            let w = started(v, pid, name, granted);
            let acts = start_acts(v, pid, name, granted);
            &&& acts.len() == if v.interval_id == 0 && granted == 0 {
                3int
            } else {
                2
            }
            &&& v.interval_id == 0 && granted == 0 ==> (acts[0] matches ActView::Log(n, _) && n
                == 1)
            &&& acts[acts.len() - 2] == status_act(w)
            &&& acts.last() == ActView::Log(
                2,
                "capture starting: "@ + w.app + " (pid "@ + decimal(pid as nat) + ")"@,
            )
        }),
{
}

/// A start that fails leaves an error and nothing else.
pub proof fn law_a_failed_start_changes_the_error_alone(v: SessionView, error: Seq<char>)
    ensures
        unstarted(v, error).last_error == "采集线程启动失败: "@ + error,
        (SessionView { last_error: v.last_error, ..unstarted(v, error) }) == v,
{
}

// ────────────────────────────────── a tick ─────────────────────────────────
/// A session that runs undisturbed, `n` ticks on.
pub open spec fn ticks_on(v: SessionView, n: int) -> SessionView {
    SessionView { ticks: (v.ticks + n) as u64, ..v }
}

/// While a session runs undisturbed, the settings are read again in the ticks
/// whose number is a multiple of five, and in no others.
pub proof fn law_settings_are_read_every_fifth_tick(
    v: SessionView,
    shared: WorkerShared,
    elapsed_ns: u128,
)
    requires
        v.phase == Phase::Running,
        !shared.target_exited,
        shared.phase != 2,
        v.ticks < u64::MAX,
    ensures
        ticked(v, Some(&shared)) == ticks_on(v, 1),
        verdict(v, Some(&shared), elapsed_ns) is Apply <==> (v.ticks + 1) % 5 == 0,
        verdict(v, Some(&shared), elapsed_ns) is Keep <==> (v.ticks + 1) % 5 != 0,
{
}

/// Of any five ticks in a row of a session that runs undisturbed, exactly one
/// reads the settings again.
pub proof fn law_five_ticks_read_the_settings_once(
    v: SessionView,
    shared: WorkerShared,
    elapsed_ns: u128,
) -> (j: int)
    requires
        v.phase == Phase::Running,
        !shared.target_exited,
        shared.phase != 2,
        v.ticks + 5 <= u64::MAX,
    ensures
        0 <= j < 5,
        forall|i: int|
            0 <= i < 5 ==> (verdict(#[trigger] ticks_on(v, i), Some(&shared), elapsed_ns) is Apply
                <==> i == j),
{
    4 - v.ticks as int % 5
}

/// The settings are read again by running sessions only.
pub proof fn law_only_running_sessions_read_the_settings(
    v: SessionView,
    shared: Option<&WorkerShared>,
    elapsed_ns: u128,
)
    requires
        verdict(v, shared, elapsed_ns) is Apply,
    ensures
        v.phase == Phase::Running,
        shared is Some,
        !shared->0.target_exited,
        shared->0.phase != 2,
{
}

/// An idle session's tick leads to nothing; one that is told to stop, or has
/// lost its worker, ends without a word.
pub proof fn law_ticks_outside_a_session(
    v: SessionView,
    shared: Option<&WorkerShared>,
    elapsed_ns: u128,
)
    ensures
        v.phase == Phase::Idle ==> verdict(v, shared, elapsed_ns) is Keep,
        v.phase == Phase::Stopping ==> verdict(v, shared, elapsed_ns) == VerdictView::Finish(None),
        v.phase != Phase::Idle && shared is None ==> verdict(v, shared, elapsed_ns)
            == VerdictView::Finish(None),
{
}

/// A session that starts goes on until its stream opens, its worker ends or
/// eight seconds are over. What ends it is told: the worker's reason, or that it
/// took too long.
pub proof fn law_a_start_has_eight_seconds(
    v: SessionView,
    shared: WorkerShared,
    elapsed_ns: u128,
)
    requires
        v.phase == Phase::Starting,
    ensures
        shared.phase == 2 ==> (verdict(v, Some(&shared), elapsed_ns) matches VerdictView::Finish(
            Some(r),
        ) && r.0 == "捕获失败"@ && r.1 == reason(shared.error@)),
        shared.phase != 1 && shared.phase != 2 && elapsed_ns > 8_000_000_000 ==> (verdict(
            v,
            Some(&shared),
            elapsed_ns,
        ) matches VerdictView::Finish(Some(r)) && r.0 == "捕获启动超时"@ && r.1
            == "音频引擎在 8 秒内未完成进程环回激活（系统为 Windows 10 2004 以下？音频服务异常？）"@),
        shared.phase == 1 || (shared.phase != 2 && elapsed_ns <= 8_000_000_000) ==> verdict(
            v,
            Some(&shared),
            elapsed_ns,
        ) is Keep,
{
}

/// A session that runs ends when its target exits or its worker ends; what is
/// told names the target, or gives the worker's reason.
pub proof fn law_a_running_session_ends_for_a_reason(
    v: SessionView,
    shared: WorkerShared,
    elapsed_ns: u128,
)
    requires
        v.phase == Phase::Running,
    ensures
        shared.target_exited ==> (verdict(v, Some(&shared), elapsed_ns) matches VerdictView::Finish(
            Some(r),
        ) && r.0 == "FocusCapture"@ && r.1 == "目标应用 "@ + v.app + " 已退出，捕获自动停止"@),
        !shared.target_exited && shared.phase == 2 ==> (verdict(
            v,
            Some(&shared),
            elapsed_ns,
        ) matches VerdictView::Finish(Some(r)) && r.0 == "捕获中断"@ && r.1 == reason(shared.error@)),
        verdict(v, Some(&shared), elapsed_ns) is Finish <==> shared.target_exited || shared.phase
            == 2,
{
}

/// A tick counts itself. It opens a starting session just where the worker says
/// that samples flow, and then takes over the worker's rate and channels; it
/// forgets an idle session's timer; it changes nothing else.
pub proof fn law_a_tick_changes_little(v: SessionView, shared: Option<&WorkerShared>)
    ensures
        ({
            let w = ticked(v, shared);
            let opening = v.phase == Phase::Starting && (shared matches Some(s) && s.phase == 1);
            &&& v.ticks < u64::MAX ==> w.ticks == v.ticks + 1
            &&& v.ticks == u64::MAX ==> w.ticks == 0
            &&& opening ==> w.phase == Phase::Running && w.rate == shared->0.rate && w.channels
                == shared->0.channels
            &&& !opening ==> w.phase == v.phase && w.rate == v.rate && w.channels == v.channels
            &&& v.phase == Phase::Idle ==> w.interval_id == 0
            &&& v.phase != Phase::Idle ==> w.interval_id == v.interval_id
            &&& (SessionView {
                ticks: v.ticks,
                phase: v.phase,
                rate: v.rate,
                channels: v.channels,
                interval_id: v.interval_id,
                ..w
            }) == v
        }),
{
}

/// A tick asks for something in three places only: when the stream opens, when
/// the start is overdue, and when an idle session still has a timer.
pub proof fn law_a_tick_asks_little(
    v: SessionView,
    shared: Option<&WorkerShared>,
    elapsed_ns: u128,
)
    ensures
        ({
            let acts = tick_acts(v, shared, elapsed_ns);
            let opening = v.phase == Phase::Starting && (shared matches Some(s) && s.phase == 1);
            let late = v.phase == Phase::Starting && (shared matches Some(s) && s.phase != 1
                && s.phase != 2) && elapsed_ns > 8_000_000_000;
            &&& v.phase == Phase::Running || v.phase == Phase::Stopping ==> acts.len() == 0
            &&& v.phase == Phase::Starting && !opening && !late ==> acts.len() == 0
            &&& late && v.worker ==> acts == seq![ActView::RaiseStop]
            &&& late && !v.worker ==> acts.len() == 0
            &&& v.phase == Phase::Idle && v.interval_id == 0 ==> acts.len() == 0
            &&& v.phase == Phase::Idle && v.interval_id != 0 ==> acts == seq![
                ActView::ClearInterval(v.interval_id),
            ]
            &&& opening ==> acts.len() == (if v.notify_on {
                4int
            } else {
                3
            }) && acts[0] == ActView::Mixing(true) && acts[1] == status_act(ticked(v, shared))
        }),
{
}

/// What is told when the stream opens: the target's name and id and the worker's
/// rate and channels, in the log and in the notification.
pub proof fn law_an_open_stream_is_told(v: SessionView, shared: WorkerShared, elapsed_ns: u128)
    requires
        v.phase == Phase::Starting,
        shared.phase == 1,
    ensures
        ({
            let acts = tick_acts(v, Some(&shared), elapsed_ns);
            let text = v.app + " (pid "@ + decimal(v.pid as nat) + ") 的声音已混入麦克风流 · "@
                + decimal(shared.rate as nat) + "Hz/"@ + decimal(shared.channels as nat) + "ch"@;
            &&& acts[2] == ActView::Log(2, "capture running: "@ + text)
            &&& v.notify_on ==> acts[3] == ActView::Notify("🎯 正在捕获焦点应用"@, text)
        }),
{
}

// ─────────────────────────────── stop and end ──────────────────────────────
/// A request to stop changes the phase alone.
pub proof fn law_a_stop_changes_the_phase_alone(v: SessionView)
    ensures
        stopped(v).phase == Phase::Stopping,
        (SessionView { phase: v.phase, ..stopped(v) }) == v,
{
}

/// A request to stop raises the stop flag where there is a worker, silences the
/// mixing, and tells of the target by its name.
pub proof fn law_a_stop_is_told(v: SessionView)
    ensures
        ({
            let acts = stop_acts(v);
            let k: int = if v.worker {
                1
            } else {
                0
            };
            &&& acts.len() == k + (if v.notify_on {
                4int
            } else {
                3
            })
            &&& v.worker ==> acts[0] == ActView::RaiseStop
            &&& acts[k] == ActView::Mixing(false)
            &&& acts[k + 1] == status_act(SessionView { phase: Phase::Stopping, ..v })
            &&& acts[k + 2] == ActView::Log(2, "capture stop requested ("@ + v.app + ")"@)
            &&& v.notify_on ==> acts[k + 3] == ActView::Notify(
                "FocusCapture"@,
                "已停止捕获 "@ + v.app,
            )
        }),
{
}

/// A worker is let go exactly when its thread was joined; then the session is
/// idle and has no timer, and nothing else changes.
pub proof fn law_only_joined_workers_are_let_go(v: SessionView, end: ThreadEnd)
    ensures
        is_reaped(v, end) <==> !reaped(v, end).worker,
        !v.worker ==> reaped(v, end) == v && reap_acts(v, end).len() == 0,
        end == ThreadEnd::Alive ==> reaped(v, end) == v && reap_acts(v, end).len() == 0,
        v.worker && end != ThreadEnd::Alive ==> {
            let w = reaped(v, end);
            &&& w.phase == Phase::Idle
            &&& !w.worker
            &&& w.interval_id == 0
            &&& (SessionView {
                phase: v.phase,
                worker: v.worker,
                interval_id: v.interval_id,
                ..w
            }) == v
        },
{
}

/// A joined worker silences the mixing and stops its timer; a panic is logged
/// first, as an error.
pub proof fn law_a_joined_worker_is_cleared_away(v: SessionView, end: ThreadEnd)
    requires
        v.worker,
        end != ThreadEnd::Alive,
    ensures
        ({
            let acts = reap_acts(v, end);
            let k: int = if end == ThreadEnd::Panicked {
                1
            } else {
                0
            };
            &&& end == ThreadEnd::Panicked ==> (acts[0] matches ActView::Log(n, _) && n == 0)
            &&& acts[k] == ActView::Mixing(false)
            &&& v.interval_id == 0 ==> acts.len() == k + 1
            &&& v.interval_id != 0 ==> acts.len() == k + 2 && acts[k + 1]
                == ActView::ClearInterval(v.interval_id)
        }),
{
}

/// The end of a session keeps what is to be told, shows its body as the error,
/// and is told to stop; with nothing to tell, nothing changes.
pub proof fn law_an_end_keeps_its_report(v: SessionView, title: Seq<char>, body: Seq<char>)
    ensures
        finishing(v, None) == v,
        ({
            let w = finishing(v, Some((title, body)));
            &&& w.phase == Phase::Stopping
            &&& w.last_error == body
            &&& w.pending_report == Some((title, body))
            &&& (SessionView {
                phase: v.phase,
                last_error: v.last_error,
                pending_report: v.pending_report,
                ..w
            }) == v
        }),
{
}

/// Flagged buffers are counted in a warning, where there are any; an end with
/// something to tell silences the mixing and raises the stop flag.
pub proof fn law_an_end_is_silent(
    v: SessionView,
    report: Option<(Seq<char>, Seq<char>)>,
    disc: u32,
)
    ensures
        ({
            let acts = finishing_acts(v, report, disc);
            let k: int = if disc > 0 {
                1
            } else {
                0
            };
            &&& disc > 0 ==> acts[0] == ActView::Log(
                1,
                "WASAPI reported "@ + decimal(disc as nat)
                    + " discontinuous buffer(s) during this session (device glitches / CPU starvation)"@,
            )
            &&& report is None ==> acts.len() == k
            &&& report is Some && v.worker ==> acts.len() == k + 2 && acts[k] == ActView::Mixing(
                false,
            ) && acts[k + 1] == ActView::RaiseStop
            &&& report is Some && !v.worker ==> acts.len() == k + 1 && acts[k] == ActView::Mixing(
                false,
            )
        }),
{
}

/// The last look at a session: while its worker lives nothing changes but the
/// published status; afterwards it is idle, with nothing left to tell.
pub proof fn law_the_last_look(v: SessionView, end: ThreadEnd)
    ensures
        v.worker && end == ThreadEnd::Alive ==> finished(v, end) == v && finish_acts(v, end)
            == seq![status_act(v)],
        !v.worker || end != ThreadEnd::Alive ==> {
            let told = v.pending_report->0;
            let acts = finish_acts(v, end);
            let n = reap_acts(v, end).len() as int;
            &&& finished(v, end).pending_report is None
            &&& (SessionView { pending_report: v.pending_report, ..finished(v, end) }) == reaped(
                v,
                end,
            )
            &&& acts.take(n) == reap_acts(v, end)
            &&& acts.last() == status_act(finished(v, end))
            &&& v.pending_report is None ==> acts.len() == n + 1
            &&& v.pending_report is Some ==> acts.len() == n + (if v.notify_on {
                3int
            } else {
                2
            }) && acts[n] == ActView::Log(0, told.0 + ": "@ + told.1)
            &&& v.pending_report is Some && v.notify_on ==> acts[n + 1] == ActView::Notify(
                told.0,
                told.1,
            )
        },
{
}

/// The status is published under its key, and says the phase in one of four
/// words, each of its own.
pub proof fn law_the_status_is_published(v: SessionView, a: Phase, b: Phase)
    ensures
        status_act(v) matches ActView::SetConfig(key, _) && key == "fc_status"@,
        phase_word(a) == phase_word(b) ==> a == b,
        phase_word(Phase::Running) == "capturing"@,
{
    reveal_strlit("idle");
    reveal_strlit("starting");
    reveal_strlit("capturing");
    reveal_strlit("stopping");
    assert("idle"@[0] == 'i' && "starting"@[2] == 'a' && "capturing"@[0] == 'c' && "stopping"@[2]
        == 'o' && "starting"@[0] == 's' && "stopping"@[0] == 's');
}

/// Registrations and reports are known by what they hold.
pub proof fn law_records_are_seen_whole(held: Seq<Registration>, i: int, report: Report)
    requires
        0 <= i < held.len(),
    ensures
        held_of(held).len() == held.len(),
        held_of(held)[i].0 == held[i].combo@,
        held_of(held)[i].1 == held[i].id,
        report_of(Some(report)) == Some((report.title@, report.body@)),
        report_of(None) is None,
{
}

/// A session is known by what it holds, field by field.
pub proof fn law_a_session_is_seen_whole(s: Session)
    ensures
        s@.phase == s.phase,
        s@.hotkey_id == s.hotkey_id,
        s@.hotkey_text == s.hotkey_text@,
        s@.hotkey_ok == s.hotkey_ok,
        s@.host_hotkey_active == s.host_hotkey_active,
        s@.held == held_of(s.held@),
        s@.interval_id == s.interval_id,
        s@.worker == s.worker,
        s@.app == s.app@,
        s@.pid == s.pid,
        s@.rate == s.rate,
        s@.channels == s.channels,
        s@.pending_report == report_of(s.pending_report),
        s@.last_error == s.last_error@,
        s@.ticks == s.ticks,
        s@.notify_on == s.notify_on,
{
}

/// What a tick leads to is known by what it holds.
pub proof fn law_a_verdict_is_seen_whole(report: Option<Report>)
    ensures
        Verdict::Keep@ == VerdictView::Keep,
        Verdict::Apply@ == VerdictView::Apply,
        Verdict::Finish(report)@ == VerdictView::Finish(report_of(report)),
{
}

/// The status has eight members and no more.
pub proof fn law_the_status_has_eight_members(v: SessionView, key: Seq<char>)
    ensures
        status_of(v).contains_key(key) <==> key == "phase"@ || key == "app"@ || key == "pid"@ || key
            == "rate"@ || key == "channels"@ || key == "error"@ || key == "hotkey"@ || key
            == "hotkeyOk"@,
{
}

// ───────────────────────────────── settings ────────────────────────────────
/// A combination goes by the first handle that the host gave for it, and by none
/// where it gave none.
pub proof fn law_the_first_handle_counts(
    held: Seq<(Seq<char>, u64)>,
    combo: Seq<char>,
    i: int,
)
    ensures
        0 <= i < held.len() && held[i].0 == combo && held[i].1 != 0 && (forall|j: int|
            0 <= j < i ==> (#[trigger] held[j]).0 != combo || held[j].1 == 0) ==> handle_for(
            held,
            combo,
        ) == Some(held[i].1),
        (forall|j: int|
            0 <= j < held.len() ==> (#[trigger] held[j]).0 != combo || held[j].1 == 0)
            ==> handle_for(held, combo) is None,
    decreases held.len(),
{
    if held.len() > 0 {
        let rest = held.skip(1);
        law_the_first_handle_counts(rest, combo, i - 1);
        if 0 < i < held.len() && held[i].0 == combo && held[i].1 != 0 && (forall|j: int|
            0 <= j < i ==> (#[trigger] held[j]).0 != combo || held[j].1 == 0) {
            assert(held[0].0 != combo || held[0].1 == 0);
            assert forall|j: int| 0 <= j < i - 1 implies (#[trigger] rest[j]).0 != combo
                || rest[j].1 == 0 by {
                assert(rest[j] == held[j + 1]);
            }
            assert(rest[i - 1] == held[i]);
        }
        if forall|j: int|
            0 <= j < held.len() ==> (#[trigger] held[j]).0 != combo || held[j].1 == 0 {
            assert(held[0].0 != combo || held[0].1 == 0);
            assert forall|j: int| 0 <= j < rest.len() implies (#[trigger] rest[j]).0 != combo
                || rest[j].1 == 0 by {
                assert(rest[j] == held[j + 1]);
            }
        }
    }
}

/// A plan takes up the host's handle where there is one, and then clears the
/// error; else presses do not count, the handle stays, and an invalid
/// combination's error is shown. It changes nothing else.
pub proof fn law_a_plan_changes_the_delivery_alone(v: SessionView)
    ensures
        ({
            let w = planned(v);
            &&& handle_for(v.held, v.hotkey_text) matches Some(id) ==> w.hotkey_id == id
                && w.host_hotkey_active && w.hotkey_ok && w.last_error.len() == 0
            &&& handle_for(v.held, v.hotkey_text) is None ==> w.hotkey_id == v.hotkey_id
                && !w.host_hotkey_active && !w.hotkey_ok && (parsed(v.hotkey_text) is Ok
                ==> w.last_error == v.last_error) && (parsed(v.hotkey_text) matches Err(e)
                ==> w.last_error == "快捷键不可用："@ + e)
            &&& (SessionView {
                hotkey_id: v.hotkey_id,
                host_hotkey_active: v.host_hotkey_active,
                hotkey_ok: v.hotkey_ok,
                last_error: v.last_error,
                ..w
            }) == v
        }),
        to_register(v) <==> handle_for(v.held, v.hotkey_text) is None && parsed(v.hotkey_text) is Ok,
{
}

/// The host's answer: a handle is kept with the combination that it was given
/// for, and its presses count; a refusal leaves an error and nothing else.
pub proof fn law_an_answer_is_kept(v: SessionView, id: u64)
    ensures
        id != 0 ==> {
            let w = registered(v, id);
            &&& w.hotkey_id == id
            &&& w.host_hotkey_active && w.hotkey_ok
            &&& w.held.len() == v.held.len() + 1
            &&& w.held.drop_last() == v.held
            &&& w.held.last().0 == v.hotkey_text
            &&& w.held.last().1 == id
            &&& (SessionView {
                hotkey_id: v.hotkey_id,
                host_hotkey_active: v.host_hotkey_active,
                hotkey_ok: v.hotkey_ok,
                held: v.held,
                ..w
            }) == v
        },
        registered(v, 0).last_error.len() > 0,
        (SessionView { last_error: v.last_error, ..registered(v, 0) }) == v,
{
    reveal_strlit("快捷键注册失败：可能与其他程序冲突或格式非法（宿主 register_hotkey 拒绝）");
    assert(registered(v, id).held.drop_last() =~= if id != 0 {
        v.held
    } else {
        v.held.drop_last()
    });
}

/// Settings take effect: the wish for notifications always; a changed
/// combination is planned anew, without the error of the one before; an
/// unchanged one is left alone.
pub proof fn law_settings_take_effect(v: SessionView, notify_on: bool, combo: Seq<char>)
    ensures
        applied(v, notify_on, combo).notify_on == notify_on,
        applied(v, notify_on, combo).hotkey_text == combo,
        combo == v.hotkey_text ==> (SessionView {
            notify_on: v.notify_on,
            ..applied(v, notify_on, combo)
        }) == v && !apply_asks(v, combo),
        combo != v.hotkey_text ==> {
            let w = SessionView { notify_on, hotkey_text: combo, last_error: Seq::empty(), ..v };
            &&& applied(v, notify_on, combo) == planned(w)
            &&& apply_asks(v, combo) <==> handle_for(v.held, combo) is None && parsed(combo) is Ok
        },
{
}

/// The start of the plugin takes up the settings, in an idle session without an
/// error.
pub proof fn law_a_start_takes_up_the_settings(
    v: SessionView,
    notify_on: bool,
    combo: Seq<char>,
)
    ensures
        loaded(v, notify_on, combo).phase == Phase::Idle,
        loaded(v, notify_on, combo).notify_on == notify_on,
        loaded(v, notify_on, combo).hotkey_text == combo,
        loaded(v, notify_on, combo) == planned(
            SessionView {
                phase: Phase::Idle,
                notify_on,
                hotkey_text: combo,
                last_error: Seq::empty(),
                ..v
            },
        ),
{
}

/// The end of the plugin leaves nothing but the wish for notifications.
pub proof fn law_the_end_leaves_nothing(v: SessionView)
    ensures
        ({
            let w = unloaded(v);
            &&& w.notify_on == v.notify_on
            &&& w.phase == Phase::Idle && !w.worker && w.interval_id == 0 && w.ticks == 0
            &&& w.hotkey_id == 0 && !w.hotkey_ok && !w.host_hotkey_active && w.held.len() == 0
            &&& w.hotkey_text.len() == 0 && w.app.len() == 0 && w.last_error.len() == 0
            &&& w.pid == 0 && w.rate == 0 && w.channels == 0 && w.pending_report is None
        }),
        fresh().notify_on,
        unloaded(fresh()) == fresh(),
{
    assert(unloaded(fresh()) =~= fresh());
}

/// A changed combination is told with how its delivery turned out, and the
/// status is published.
pub proof fn law_a_change_is_told(v: SessionView)
    ensures
        replanned(v).len() == 2,
        v.hotkey_ok ==> replanned(v)[0] == ActView::Log(
            2,
            "hotkey re-planned: ["@ + v.hotkey_text + "] (ok="@ + "true"@ + ")"@,
        ),
        !v.hotkey_ok ==> replanned(v)[0] == ActView::Log(
            2,
            "hotkey re-planned: ["@ + v.hotkey_text + "] (ok="@ + "false"@ + ")"@,
        ),
        replanned(v)[1] == status_act(v),
{
}

/// The start is told with the combination and its handle where it is delivered,
/// as an error with its reason where it is not.
pub proof fn law_the_start_is_told(v: SessionView, version: Seq<char>)
    ensures
        v.hotkey_ok ==> ready_line(v, version) == ActView::Log(
            2,
            "FocusCapture v"@ + version + " ready — hotkey ["@ + v.hotkey_text
                + "] registered (id "@ + decimal(v.hotkey_id as nat) + ")"@,
        ),
        !v.hotkey_ok ==> ready_line(v, version) == ActView::Log(
            0,
            "hotkey unavailable for ["@ + v.hotkey_text + "]: "@ + v.last_error
                + " — plugin cannot start captures"@,
        ),
{
}

/// What is stored counts where it spells a setting; else the defaults do.
pub proof fn law_stored_settings_count(stored: Seq<char>)
    ensures
        crate::json::json_string(stored) matches Some(s) ==> combo_stored(stored) == s,
        crate::json::json_string(stored) is None ==> combo_stored(stored) == "ctrl+shift+f8"@,
        crate::json::bool_spelled(stored) matches Some(b) ==> notify_stored(stored) == b,
        crate::json::bool_spelled(stored) is None ==> notify_stored(stored),
{
}

// ───────────────────────────────── messages ────────────────────────────────
/// A press counts exactly where it spells the live handle, however it is
/// spelled, and presses count at all.
pub proof fn law_a_press_names_the_live_handle(v: SessionView, handle: Seq<char>)
    ensures
        press_counts(v, handle) <==> v.host_hotkey_active && v.hotkey_id != 0 && unsigned_value(
            handle,
            u64::MAX as nat,
        ) == Some(v.hotkey_id as nat),
        is_press("hotkey:"@ + handle),
        ("hotkey:"@ + handle).skip(7) == handle,
{
    reveal_strlit("hotkey:");
    assert(("hotkey:"@ + handle).take(7) =~= "hotkey:"@);
    assert(("hotkey:"@ + handle).skip(7) =~= handle);
}

/// What each topic leads to, whatever the session: a press toggles or nothing, a
/// tick is the watchdog's or nothing, the panel's stop reaches a session that
/// starts or runs, its apply always counts; every other topic is ignored.
pub proof fn law_topics_lead_where_they_should(
    v: SessionView,
    topic: Seq<char>,
    tick: Option<(u64, Seq<char>)>,
)
    ensures
        command(v, topic, tick) == Command::Toggle <==> topic.len() >= 7 && topic.take(7)
            == "hotkey:"@ && press_counts(v, topic.skip(7)),
        command(v, topic, tick) == Command::Watchdog <==> topic == "interval:tick"@ && (
        tick matches Some((id, tag)) && id != 0 && id == v.interval_id && tag == "fcwd"@),
        command(v, topic, tick) == Command::Stop <==> topic == "ui:stop"@ && (v.phase
            == Phase::Starting || v.phase == Phase::Running),
        command(v, topic, tick) == Command::Apply <==> topic == "ui:apply"@,
{
    reveal_strlit("hotkey:");
    reveal_strlit("interval:tick");
    reveal_strlit("ui:stop");
    reveal_strlit("ui:apply");
    assert("hotkey:"@[0] == 'h' && "interval:tick"@[0] == 'i' && "ui:stop"@[0] == 'u'
        && "ui:apply"@[0] == 'u' && "ui:stop"@[3] == 's' && "ui:apply"@[3] == 'a');
    if is_press(topic) {
        assert(topic[0] == topic.take(7)[0]);
    }
}

/// A member is found under its own key, as what it is.
pub proof fn law_members_are_found_under_their_keys(
    object: Map<Seq<char>, LeafView>,
    key: Seq<char>,
    leaf: JsonLeaf,
)
    ensures
        number_under(object, key) is Some <==> object.contains_key(key) && object[key] is Number,
        number_under(object, key) matches Some(n) ==> object[key] == LeafView::Number(n),
        text_under(object, key) is Some <==> object.contains_key(key) && object[key] is Text,
        text_under(object, key) matches Some(t) ==> object[key] == LeafView::Text(t),
        leaf matches JsonLeaf::Text(t) ==> leaf@ == LeafView::Text(t@),
        leaf matches JsonLeaf::Number(n) ==> leaf@ == LeafView::Number(n),
        leaf matches JsonLeaf::Flag(b) ==> leaf@ == LeafView::Flag(b),
{
}

/// A tick's payload says what its object says, and nothing where it is none.
pub proof fn law_a_payload_says_its_object(payload: Seq<char>)
    ensures
        json_object(payload) matches Some(object) ==> tick_in(payload) == tick_said(object),
        json_object(payload) is None ==> tick_in(payload) is None,
{
}

/// A tick says its timer and its tag, as they stand under their names.
pub proof fn law_a_tick_says_its_timer(
    object: Map<Seq<char>, LeafView>,
    id: u64,
    tag: Seq<char>,
)
    ensures
        tick_said(object) == Some((id, tag)) <==> object.contains_key("interval"@)
            && object["interval"@] == LeafView::Number(id) && object.contains_key("payload"@)
            && object["payload"@] == LeafView::Text(tag),
        tick_said(object) is None <==> !(object.contains_key("interval"@)
            && object["interval"@] is Number && object.contains_key("payload"@)
            && object["payload"@] is Text),
{
}

/// The watchdog's times: it ticks every 400 ms; a start has eight seconds; a
/// press waits 400 ms for the previous worker, looking every ten.
pub proof fn law_the_watchdog_s_times()
    ensures
        crate::session::WATCHDOG_MS == 400,
        crate::session::START_TIMEOUT_NS == 8_000_000_000,
        crate::session::REAP_BUDGET_HOTKEY_NS == 400_000_000,
        crate::session::REAP_POLL_MS == 10,
{
}

} // verus!
