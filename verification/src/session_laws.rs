//! What holds of every session, whatever happens to it.
use crate::abi::{notice, ActView, LOG_ERROR, LOG_INFO};
use crate::capture::{WorkerShared, PHASE_FINISHED};
use crate::hotkey::parsed;
use crate::json::{number_under, text_under, LeafView};
use crate::message::{command, Command};
use crate::session::{
    disarm, finish_acts, finished, finishing, finishing_acts, fresh, glitches, is_reaped,
    opens, overdue, phase_word, raise, reap_acts, reaped, start_acts, started, status_act,
    status_of, stop_acts, stopped, tick_acts, ticked, told, unstarted, verdict, Phase, SessionView,
    ThreadEnd, VerdictView,
};
use crate::settings::{
    applied, apply_asks, handle_for, loaded, planned, registered, replanned, to_register,
    unloaded,
};
use crate::text::{decimal, law_decimal_is_read_back};
use vstd::prelude::*;

verus! {

/// A step of the session, with what was observed outside.
pub enum Event {
    /// `request_stop`
    Stop,
    /// `watchdog`
    Tick { shared: Option<WorkerShared>, elapsed_ns: u128 },
    /// `begin_finish`
    BeginFinish { report: Option<(Seq<char>, Seq<char>)>, disc: u32 },
    /// `end_finish`
    EndFinish { end: ThreadEnd },
    /// `reap_worker`
    Reap { end: ThreadEnd },
    /// `capture_started`
    Started { pid: u32, name: Seq<char>, granted: u64 },
    /// `capture_failed`
    Failed { error: Seq<char> },
    /// `hotkey_registered`
    Registered { id: u64 },
    /// `apply_settings`
    Applied { notify_on: bool, combo: Seq<char> },
    /// `load_settings`
    Loaded { notify_on: bool, combo: Seq<char> },
    /// `begin_deinit`
    Unloading,
    /// `end_deinit`
    Unloaded,
}

pub open spec fn shared_ref(shared: Option<WorkerShared>) -> Option<&'static WorkerShared> {
    match shared {
        Some(w) => Some(&w),
        None => None,
    }
}

/// The session after a step.
pub open spec fn next(v: SessionView, e: Event) -> SessionView {
    match e {
        Event::Stop => stopped(v),
        Event::Tick { shared, .. } => ticked(v, shared_ref(shared)),
        Event::BeginFinish { report, .. } => finishing(v, report),
        Event::EndFinish { end } => finished(v, end),
        Event::Reap { end } => reaped(v, end),
        Event::Started { pid, name, granted } => started(v, pid, name, granted),
        Event::Failed { error } => unstarted(v, error),
        Event::Registered { id } => registered(v, id),
        Event::Applied { notify_on, combo } => applied(v, notify_on, combo),
        Event::Loaded { notify_on, combo } => loaded(v, notify_on, combo),
        Event::Unloading => v,
        Event::Unloaded => unloaded(v),
    }
}

/// What a step asks of the worker and of the mixing.
pub open spec fn asked(v: SessionView, e: Event) -> Seq<ActView> {
    match e {
        Event::Stop => stop_acts(v),
        Event::Tick { shared, elapsed_ns } => tick_acts(v, shared_ref(shared), elapsed_ns),
        Event::BeginFinish { report, disc } => finishing_acts(v, report, disc),
        Event::EndFinish { end } => finish_acts(v, end),
        Event::Reap { end } => reap_acts(v, end),
        Event::Started { pid, name, granted } => start_acts(v, pid, name, granted),
        Event::Failed { error } => seq![
            ActView::Log(LOG_ERROR, unstarted(v, error).last_error),
            status_act(unstarted(v, error)),
        ] + notice(v.notify_on, "捕获启动失败"@, unstarted(v, error).last_error),
        Event::Applied { notify_on, combo } => if combo == v.hotkey_text || apply_asks(v, combo) {
            Seq::empty()
        } else {
            replanned(applied(v, notify_on, combo))
        },
        Event::Registered { .. } | Event::Loaded { .. } => Seq::empty(),
        Event::Unloading => raise(v.worker).push(ActView::Mixing(false)),
        Event::Unloaded => disarm(v.interval_id),
    }
}

/// When a step is taken: a session is stopped or ended while it lives, started
/// while none does; the host is asked for a combination that it does not hold;
/// the plugin starts and ends without a worker.
pub open spec fn may(v: SessionView, e: Event) -> bool {
    match e {
        Event::Stop => v.phase == Phase::Starting || v.phase == Phase::Running,
        Event::BeginFinish { .. } => v.phase != Phase::Idle,
        Event::Started { .. } => v.phase == Phase::Idle,
        Event::Registered { .. } => to_register(v) && !v.host_hotkey_active,
        Event::Loaded { .. } => v.phase == Phase::Idle,
        Event::Unloaded => !v.worker,
        _ => true,
    }
}

/// What holds of every session: a worker is held just outside the idle phase;
/// the watchdog is armed only then; presses count just where the configured
/// combination is delivered, and then it is the one that the live handle was
/// given for; the host's handles are not zero.
pub open spec fn consistent(v: SessionView) -> bool {
    &&& v.worker <==> v.phase != Phase::Idle
    &&& v.interval_id != 0 ==> v.phase != Phase::Idle
    &&& v.host_hotkey_active == v.hotkey_ok
    &&& v.host_hotkey_active ==> handle_for(v.held, v.hotkey_text) == Some(v.hotkey_id)
    &&& forall|i: int| 0 <= i < v.held.len() ==> (#[trigger] v.held[i]).1 != 0
}

proof fn lemma_handle_behind(held: Seq<(Seq<char>, u64)>, combo: Seq<char>, last: (Seq<char>, u64))
    ensures
        handle_for(held.push(last), combo) == match handle_for(held, combo) {
            Some(id) => Some(id),
            None => if last.0 == combo && last.1 != 0 {
                Some(last.1)
            } else {
                None
            },
        },
    decreases held.len(),
{
    if held.len() == 0 {
        assert(held.push(last).skip(1) == Seq::<(Seq<char>, u64)>::empty());
        assert(handle_for(held.push(last).skip(1), combo) is None);
    } else if !(held[0].0 == combo && held[0].1 != 0) {
        lemma_handle_behind(held.skip(1), combo, last);
        assert(held.push(last).skip(1) == held.skip(1).push(last));
    }
}

/// The session before the first start of the plugin is consistent.
pub proof fn law_a_fresh_session_is_consistent()
    ensures
        consistent(fresh()),
{
}

/// Every step keeps the session consistent.
pub proof fn law_steps_keep_consistency(v: SessionView, e: Event)
    requires
        consistent(v),
        may(v, e),
    ensures
        consistent(next(v, e)),
{
    match e {
        Event::Registered { id } => {
            lemma_handle_behind(v.held, v.hotkey_text, (v.hotkey_text, id));
        },
        _ => {},
    }
}

/// Nothing in a list of acts starts the mixing.
pub open spec fn starts_no_mixing(acts: Seq<ActView>) -> bool {
    forall|i: int| 0 <= i < acts.len() ==> #[trigger] acts[i] != ActView::Mixing(true)
}

proof fn lemma_join(a: Seq<ActView>, b: Seq<ActView>)
    requires
        starts_no_mixing(a),
        starts_no_mixing(b),
    ensures
        starts_no_mixing(a + b),
{
    assert forall|i: int| 0 <= i < (a + b).len() implies #[trigger] (a + b)[i] != ActView::Mixing(
        true,
    ) by {
        if i >= a.len() {
            assert((a + b)[i] == b[i - a.len()]);
        }
    }
}

proof fn lemma_stop_is_quiet(v: SessionView)
    ensures
        starts_no_mixing(stop_acts(v)),
{
    let middle = seq![
        ActView::Mixing(false),
        status_act(stopped(v)),
        ActView::Log(LOG_INFO, "capture stop requested ("@ + v.app + ")"@),
    ];
    lemma_join(raise(v.worker), middle);
    lemma_join(
        raise(v.worker) + middle,
        notice(v.notify_on, "FocusCapture"@, "已停止捕获 "@ + v.app),
    );
}

proof fn lemma_finish_is_quiet(v: SessionView, end: ThreadEnd)
    ensures
        starts_no_mixing(reap_acts(v, end)),
        starts_no_mixing(finish_acts(v, end)),
{
    let last = seq![status_act(finished(v, end))];
    lemma_join(reap_acts(v, end), told(v));
    lemma_join(reap_acts(v, end) + told(v), last);
}

/// The mixing begins only when a starting session's worker reports that its
/// stream is open.
pub proof fn law_mixing_begins_with_the_stream(v: SessionView, e: Event)
    requires
        asked(v, e).contains(ActView::Mixing(true)),
    ensures
        e is Tick,
        opens(v, shared_ref(e->shared)),
        next(v, e).phase == Phase::Running,
{
    match e {
        Event::Stop => lemma_stop_is_quiet(v),
        Event::EndFinish { end } => lemma_finish_is_quiet(v, end),
        Event::Reap { end } => lemma_finish_is_quiet(v, end),
        _ => {},
    }
}

/// A session that ceases to start or run silences the mixing in the same step.
pub proof fn law_an_ended_session_is_silent(v: SessionView, e: Event)
    requires
        consistent(v),
        may(v, e),
        v.phase == Phase::Starting || v.phase == Phase::Running,
        next(v, e).phase == Phase::Stopping || next(v, e).phase == Phase::Idle,
    ensures
        asked(v, e).contains(ActView::Mixing(false)),
        !asked(v, e).contains(ActView::Mixing(true)),
{
    let acts = asked(v, e);
    match e {
        Event::Stop => {
            lemma_stop_is_quiet(v);
            assert(acts[1] == ActView::Mixing(false));
        },
        Event::BeginFinish { report, disc } => {
            assert(acts[glitches(disc).len() as int] == ActView::Mixing(false));
        },
        Event::EndFinish { end } => {
            lemma_finish_is_quiet(v, end);
            let i: int = if end == ThreadEnd::Panicked {
                1
            } else {
                0
            };
            assert(acts[i] == ActView::Mixing(false));
        },
        Event::Reap { end } => {
            lemma_finish_is_quiet(v, end);
            let i: int = if end == ThreadEnd::Panicked {
                1
            } else {
                0
            };
            assert(acts[i] == ActView::Mixing(false));
        },
        _ => {},
    }
}

/// Whoever stops a session that may still be starting raises the stop flag
/// strictly before the mixing flag goes down.
pub proof fn law_the_stop_flag_comes_first(v: SessionView, e: Event)
    requires
        consistent(v),
        v.phase == Phase::Starting || v.phase == Phase::Running,
        e is Stop || e is Unloading,
    ensures
        asked(v, e)[0] == ActView::RaiseStop,
        asked(v, e)[1] == ActView::Mixing(false),
{
}

/// A session that takes too long to start raises the stop flag in the tick that
/// finds out, before its end silences the mixing.
pub proof fn law_an_overdue_start_is_stopped(v: SessionView, shared: WorkerShared, elapsed_ns: u128)
    requires
        consistent(v),
        overdue(v, Some(&shared), elapsed_ns),
    ensures
        tick_acts(v, Some(&shared), elapsed_ns) == seq![ActView::RaiseStop],
        verdict(v, Some(&shared), elapsed_ns) is Finish,
        verdict(v, Some(&shared), elapsed_ns)->Finish_0 is Some,
{
}

/// A target that exits ends its session, and so does a worker that ends on its
/// own: the mixing stops, the worker is told to, and there is something to tell.
pub proof fn law_a_lost_source_ends_the_session(v: SessionView, shared: WorkerShared, disc: u32)
    requires
        consistent(v),
        v.phase == Phase::Running,
        shared.target_exited || shared.phase == PHASE_FINISHED,
    ensures
        verdict(v, Some(&shared), 0) matches VerdictView::Finish(report) && report is Some
            && finishing(v, report).phase == Phase::Stopping && finishing_acts(v, report, disc)
            == glitches(disc) + seq![ActView::Mixing(false), ActView::RaiseStop],
{
    let report = verdict(v, Some(&shared), 0)->Finish_0;
    assert(finishing_acts(v, report, disc) =~= glitches(disc) + seq![
        ActView::Mixing(false),
        ActView::RaiseStop,
    ]);
}

/// A session that was told to stop is over once its worker is joined: idle,
/// without a worker, without a timer.
pub proof fn law_a_joined_worker_ends_the_session(v: SessionView, end: ThreadEnd)
    requires
        v.worker,
        end != ThreadEnd::Alive,
    ensures
        finished(stopped(v), end).phase == Phase::Idle,
        !finished(stopped(v), end).worker,
        finished(stopped(v), end).interval_id == 0,
        finished(stopped(v), end).pending_report is None,
{
}

/// The end of the plugin, whatever the session: the stop flag goes up, the
/// mixing goes down, and once the worker is joined no worker is left, its timer
/// is stopped and the session is fresh but for the wish for notifications.
pub proof fn law_the_plugin_ends_without_a_worker(v: SessionView, end: ThreadEnd)
    requires
        consistent(v),
        end != ThreadEnd::Alive,
    ensures
        asked(v, Event::Unloading) == raise(v.worker) + seq![ActView::Mixing(false)],
        may(reaped(v, end), Event::Unloaded),
        next(reaped(v, end), Event::Unloaded) == unloaded(v),
        v.interval_id != 0 ==> reap_acts(v, end).last() == ActView::ClearInterval(v.interval_id),
{
    assert(asked(v, Event::Unloading) =~= raise(v.worker) + seq![ActView::Mixing(false)]);
}

/// Ending the plugin twice changes nothing more.
pub proof fn law_a_second_end_changes_nothing(v: SessionView, end: ThreadEnd)
    ensures
        reaped(next(unloaded(v), Event::Unloading), end) == unloaded(v),
        may(unloaded(v), Event::Unloaded),
        next(unloaded(v), Event::Unloaded) == unloaded(v),
        asked(unloaded(v), Event::Unloading) == seq![ActView::Mixing(false)],
        reap_acts(unloaded(v), end) == Seq::<ActView>::empty(),
        asked(unloaded(v), Event::Unloaded) == Seq::<ActView>::empty(),
{
    assert(asked(unloaded(v), Event::Unloading) =~= seq![ActView::Mixing(false)]);
}

/// While the worker winds down, looking at it changes nothing but the published
/// status.
pub proof fn law_winding_down_is_patient(v: SessionView)
    requires
        v.worker,
    ensures
        finished(v, ThreadEnd::Alive) == v,
        finish_acts(v, ThreadEnd::Alive) == seq![status_act(v)],
{
}

/// What is to be told of an ended session is told once, and only once its
/// worker is gone.
pub proof fn law_a_report_is_told_once(
    v: SessionView,
    report: (Seq<char>, Seq<char>),
    end: ThreadEnd,
    later: ThreadEnd,
)
    requires
        is_reaped(v, end),
    ensures
        told(finishing(v, Some(report))) == seq![
            ActView::Log(LOG_ERROR, report.0 + ": "@ + report.1),
        ] + notice(v.notify_on, report.0, report.1),
        told(finished(finishing(v, Some(report)), end)) == Seq::<ActView>::empty(),
        finish_acts(finished(finishing(v, Some(report)), end), later) == seq![
            status_act(finished(finishing(v, Some(report)), end)),
        ],
{
}

/// A combination that the host holds stays under its handle until the plugin
/// ends, and the host is not asked for it again.
pub proof fn law_registrations_are_kept(v: SessionView, e: Event, combo: Seq<char>)
    requires
        handle_for(v.held, combo) is Some,
        !(e is Unloaded),
    ensures
        handle_for(next(v, e).held, combo) == handle_for(v.held, combo),
        !to_register(SessionView { hotkey_text: combo, ..next(v, e) }),
{
    match e {
        Event::Registered { id } => {
            lemma_handle_behind(v.held, combo, (v.hotkey_text, id));
        },
        _ => {},
    }
}

/// The topic of a press of the hotkey with that handle.
pub open spec fn press_topic(id: u64) -> Seq<char> {
    "hotkey:"@ + decimal(id as nat)
}

/// A press counts exactly where it is of the live registration; the presses of
/// every other registration are ignored.
pub proof fn law_only_live_presses_count(
    v: SessionView,
    id: u64,
    tick: Option<(u64, Seq<char>)>,
)
    ensures
        command(v, press_topic(id), tick) == Command::Toggle <==> v.host_hotkey_active && id != 0
            && id == v.hotkey_id,
        command(v, press_topic(id), tick) == Command::Toggle || command(v, press_topic(id), tick)
            == Command::Nothing,
{
    reveal_strlit("hotkey:");
    law_decimal_is_read_back(id as nat, u64::MAX as nat);
    assert(press_topic(id).take(7) == "hotkey:"@);
    assert(press_topic(id).skip(7) == decimal(id as nat));
}

/// The session once the delivery of its combination is planned and the host has
/// answered, where it was asked.
pub open spec fn replan(v: SessionView, id: u64) -> SessionView {
    if to_register(v) {
        registered(planned(v), id)
    } else {
        planned(v)
    }
}

/// However a plan turns out: presses count just where the combination is
/// delivered; then it goes by a handle that is not zero and that the host gave
/// for it. Else there is an error to show and no handle changes; a combination
/// that is invalid and not held is refused without asking the host. The
/// combination and the phase stay.
pub proof fn law_a_plan_delivers_or_explains(v: SessionView, id: u64)
    ensures
        ({
            let w = replan(v, id);
            &&& w.hotkey_ok == w.host_hotkey_active
            &&& w.hotkey_ok ==> w.hotkey_id != 0 && handle_for(w.held, w.hotkey_text) == Some(
                w.hotkey_id,
            )
            &&& !w.hotkey_ok ==> w.last_error.len() > 0 && w.hotkey_id == v.hotkey_id && w.held
                == v.held
            &&& w.hotkey_text == v.hotkey_text
            &&& w.phase == v.phase
        }),
        handle_for(v.held, v.hotkey_text) is None ==> (parsed(v.hotkey_text) matches Err(e)
            ==> !to_register(v) && replan(v, id).last_error == "快捷键不可用："@ + e),
{
    reveal_strlit("快捷键不可用：");
    reveal_strlit("快捷键注册失败：可能与其他程序冲突或格式非法（宿主 register_hotkey 拒绝）");
    lemma_handle_behind(v.held, v.hotkey_text, (v.hotkey_text, id));
    lemma_handles_are_not_zero(v.held, v.hotkey_text);
}

proof fn lemma_handles_are_not_zero(held: Seq<(Seq<char>, u64)>, combo: Seq<char>)
    ensures
        handle_for(held, combo) matches Some(id) ==> id != 0,
    decreases held.len(),
{
    if held.len() > 0 {
        lemma_handles_are_not_zero(held.skip(1), combo);
    }
}

/// The session once a registration that was asked for is answered.
pub open spec fn settled(v: SessionView, combo: Seq<char>, id: u64) -> SessionView {
    let w = applied(v, v.notify_on, combo);
    if apply_asks(v, combo) {
        registered(w, id)
    } else {
        w
    }
}

/// Going back to a combination that was used before takes up the host's
/// registration of it again: the host is not asked a second time, and its
/// presses count at once.
pub proof fn law_a_known_combination_is_reused(v: SessionView, other: Seq<char>, id: u64)
    requires
        consistent(v),
        v.host_hotkey_active,
        other != v.hotkey_text,
    ensures
        !apply_asks(settled(v, other, id), v.hotkey_text),
        settled(settled(v, other, id), v.hotkey_text, id).hotkey_id == v.hotkey_id,
        settled(settled(v, other, id), v.hotkey_text, id).host_hotkey_active,
        settled(settled(v, other, id), v.hotkey_text, id).held == settled(v, other, id).held,
{
    lemma_handle_behind(v.held, v.hotkey_text, (other, id));
}

/// Once the combination is changed to one that goes by another handle, or that
/// cannot be delivered, presses of the former one are ignored.
pub proof fn law_a_former_combination_is_dead(
    v: SessionView,
    other: Seq<char>,
    id: u64,
    tick: Option<(u64, Seq<char>)>,
)
    requires
        consistent(v),
        v.host_hotkey_active,
        other != v.hotkey_text,
        settled(v, other, id).hotkey_id != v.hotkey_id || !settled(
            v,
            other,
            id,
        ).host_hotkey_active,
    ensures
        command(settled(v, other, id), press_topic(v.hotkey_id), tick) == Command::Nothing,
{
    law_only_live_presses_count(settled(v, other, id), v.hotkey_id, tick);
}

/// A change of the settings never disturbs a session that lives.
pub proof fn law_settings_leave_the_session_alone(v: SessionView, combo: Seq<char>, id: u64)
    ensures
        settled(v, combo, id).phase == v.phase,
        settled(v, combo, id).worker == v.worker,
        settled(v, combo, id).interval_id == v.interval_id,
        settled(v, combo, id).app == v.app,
        settled(v, combo, id).pid == v.pid,
{
}

/// The published status says each of the eight things under its name.
pub proof fn law_the_status_says(v: SessionView)
    ensures
        text_under(status_of(v), "phase"@) == Some(phase_word(v.phase)),
        text_under(status_of(v), "app"@) == Some(v.app),
        number_under(status_of(v), "pid"@) == Some(v.pid as u64),
        number_under(status_of(v), "rate"@) == Some(v.rate as u64),
        number_under(status_of(v), "channels"@) == Some(v.channels as u64),
        text_under(status_of(v), "error"@) == Some(v.last_error),
        text_under(status_of(v), "hotkey"@) == Some(v.hotkey_text),
        status_of(v)["hotkeyOk"@] == LeafView::Flag(v.hotkey_ok),
        status_of(v).contains_key("hotkeyOk"@),
{
    reveal_strlit("phase");
    reveal_strlit("app");
    reveal_strlit("pid");
    reveal_strlit("rate");
    reveal_strlit("channels");
    reveal_strlit("error");
    reveal_strlit("hotkey");
    reveal_strlit("hotkeyOk");
    assert("hotkey"@.len() == 6 && "hotkeyOk"@.len() == 8);
    assert("phase"@[0] == 'p' && "app"@[0] == 'a' && "pid"@[1] == 'i' && "rate"@[0] == 'r'
        && "channels"@[0] == 'c' && "error"@[0] == 'e' && "hotkey"@[0] == 'h' && "hotkeyOk"@[0]
        == 'h');
}

} // verus!
