//! The session: the bus thread's state, and what each tick and report does to
//! it.
//!
//! A step takes the session and what was observed outside (the worker's
//! reports, whether its thread has ended, a handle that the host gave), changes
//! the session, and appends what the bus thread is to do next, in order.
use crate::abi::{
    acts_of, ask, clear_interval, log_error, log_info, log_warn, notice, notify, set_config, Act,
    ActView, LOG_ERROR, LOG_INFO, LOG_WARN,
};
use crate::capture::{reason, worker_error, WorkerShared, PHASE_FINISHED, PHASE_RUNNING};
use crate::json::{
    json_object, new_object, object_of, object_text, put, render, JsonLeaf, LeafView,
};
use crate::text::{decimal, push_decimal};
use vstd::prelude::*;
use vstd::string::StringExecFns;

verus! {


/// The watchdog's cadence while a session lives.
pub const WATCHDOG_MS: u64 = 400;

/// The tag that the watchdog's ticks carry.
pub const WATCHDOG_PAYLOAD: &'static str = "fcwd";

/// How long the worker may take to open its stream.
pub const START_TIMEOUT_NS: u128 = 8_000_000_000;

/// How long the bus thread rests between two looks at the worker's thread.
pub const REAP_POLL_MS: u64 = 10;

/// How long a press waits for the previous worker.
pub const REAP_BUDGET_HOTKEY_NS: u128 = 400_000_000;

#[derive(Clone, Copy, PartialEq, Eq, Structural, Debug)]
pub enum Phase {
    Idle,
    Starting,
    Running,
    Stopping,
}

/// A combination that the host holds, and its handle. The host cannot release
/// it.
pub struct Registration {
    pub combo: String,
    pub id: u64,
}

/// A notification's title and body.
pub struct Report {
    pub title: String,
    pub body: String,
}

pub struct Session {
    pub phase: Phase,
    /// The handle whose presses count (0 = none yet).
    pub hotkey_id: u64,
    /// The configured combination.
    pub hotkey_text: String,
    /// Whether the configured combination is delivered.
    pub hotkey_ok: bool,
    /// Whether presses count at all: not while the configured combination is
    /// not delivered.
    pub host_hotkey_active: bool,
    /// Every combination that the host holds.
    pub held: Vec<Registration>,
    /// The watchdog's timer (0 = not armed).
    pub interval_id: u64,
    /// Whether a worker is held, with its stop flag and its reports.
    pub worker: bool,
    pub app: String,
    pub pid: u32,
    pub rate: u32,
    pub channels: u32,
    /// To be told once the worker is gone.
    pub pending_report: Option<Report>,
    pub last_error: String,
    /// Watchdog ticks so far.
    pub ticks: u64,
    /// Whether the user wants notifications.
    pub notify_on: bool,
}

/// The session as a value.
#[verifier::ext_equal]
pub struct SessionView {
    pub phase: Phase,
    pub hotkey_id: u64,
    pub hotkey_text: Seq<char>,
    pub hotkey_ok: bool,
    pub host_hotkey_active: bool,
    pub held: Seq<(Seq<char>, u64)>,
    pub interval_id: u64,
    pub worker: bool,
    pub app: Seq<char>,
    pub pid: u32,
    pub rate: u32,
    pub channels: u32,
    pub pending_report: Option<(Seq<char>, Seq<char>)>,
    pub last_error: Seq<char>,
    pub ticks: u64,
    pub notify_on: bool,
}

impl View for Report {
    type V = (Seq<char>, Seq<char>);

    open spec fn view(&self) -> (Seq<char>, Seq<char>) {
        (self.title@, self.body@)
    }
}

/// A report that may be missing, as a value.
pub open spec fn report_of(report: Option<Report>) -> Option<(Seq<char>, Seq<char>)> {
    match report {
        Some(r) => Some(r@),
        None => None,
    }
}

/// The registrations, as values.
pub open spec fn held_of(held: Seq<Registration>) -> Seq<(Seq<char>, u64)> {
    held.map_values(|r: Registration| (r.combo@, r.id))
}

impl View for Session {
    type V = SessionView;

    open spec fn view(&self) -> SessionView {
        SessionView {
            phase: self.phase,
            hotkey_id: self.hotkey_id,
            hotkey_text: self.hotkey_text@,
            hotkey_ok: self.hotkey_ok,
            host_hotkey_active: self.host_hotkey_active,
            held: held_of(self.held@),
            interval_id: self.interval_id,
            worker: self.worker,
            app: self.app@,
            pid: self.pid,
            rate: self.rate,
            channels: self.channels,
            pending_report: report_of(self.pending_report),
            last_error: self.last_error@,
            ticks: self.ticks,
            notify_on: self.notify_on,
        }
    }
}

/// The session before the first start of the plugin.
pub open spec fn fresh() -> SessionView {
    SessionView {
        phase: Phase::Idle,
        hotkey_id: 0,
        hotkey_text: Seq::empty(),
        hotkey_ok: false,
        host_hotkey_active: false,
        held: Seq::empty(),
        interval_id: 0,
        worker: false,
        app: Seq::empty(),
        pid: 0,
        rate: 0,
        channels: 0,
        pending_report: None,
        last_error: Seq::empty(),
        ticks: 0,
        notify_on: true,
    }
}

impl Session {
    pub fn new() -> (r: Self)
        ensures
            r@ == fresh(),
    {
        Session {
            phase: Phase::Idle,
            hotkey_id: 0,
            hotkey_text: String::new(),
            hotkey_ok: false,
            host_hotkey_active: false,
            held: Vec::new(),
            interval_id: 0,
            worker: false,
            app: String::new(),
            pid: 0,
            rate: 0,
            channels: 0,
            pending_report: None,
            last_error: String::new(),
            ticks: 0,
            notify_on: true,
        }
    }
}

// ───────────────────────────────── status ──────────────────────────────────
/// The phase as the panel knows it.
pub open spec fn phase_word(phase: Phase) -> Seq<char> {
    match phase {
        Phase::Idle => "idle"@,
        Phase::Starting => "starting"@,
        Phase::Running => "capturing"@,
        Phase::Stopping => "stopping"@,
    }
}

/// The status snapshot that the panel polls.
pub open spec fn status_of(v: SessionView) -> Map<Seq<char>, LeafView> {
    Map::<Seq<char>, LeafView>::empty().insert("phase"@, LeafView::Text(phase_word(v.phase))).insert(
        "app"@,
        LeafView::Text(v.app),
    ).insert("pid"@, LeafView::Number(v.pid as u64)).insert(
        "rate"@,
        LeafView::Number(v.rate as u64),
    ).insert("channels"@, LeafView::Number(v.channels as u64)).insert(
        "error"@,
        LeafView::Text(v.last_error),
    ).insert("hotkey"@, LeafView::Text(v.hotkey_text)).insert(
        "hotkeyOk"@,
        LeafView::Flag(v.hotkey_ok),
    )
}

/// The act that publishes the status.
pub open spec fn status_act(v: SessionView) -> ActView {
    ActView::SetConfig("fc_status"@, object_text(status_of(v)))
}

/// The status object.
pub fn status_object(s: &Session) -> (r: serde_json::Map<String, serde_json::Value>)
    ensures
        object_of(r) == status_of(s@),
{
    let phase: &str = match s.phase {
        Phase::Idle => "idle",
        Phase::Starting => "starting",
        Phase::Running => "capturing",
        Phase::Stopping => "stopping",
    };
    let mut m = new_object();
    put(&mut m, "phase", JsonLeaf::Text(phase.to_string()));
    put(&mut m, "app", JsonLeaf::Text(s.app.clone()));
    put(&mut m, "pid", JsonLeaf::Number(s.pid as u64));
    put(&mut m, "rate", JsonLeaf::Number(s.rate as u64));
    put(&mut m, "channels", JsonLeaf::Number(s.channels as u64));
    put(&mut m, "error", JsonLeaf::Text(s.last_error.clone()));
    put(&mut m, "hotkey", JsonLeaf::Text(s.hotkey_text.clone()));
    put(&mut m, "hotkeyOk", JsonLeaf::Flag(s.hotkey_ok));
    m
}

/// The status as JSON text, which is read back as the status object.
pub fn status_text(s: &Session) -> (r: String)
    ensures
        r@ == object_text(status_of(s@)),
        json_object(r@) == Some(status_of(s@)),
{
    render(status_object(s))
}

/// Publishes the status.
pub fn write_status(s: &Session, acts: &mut Vec<Act>)
    ensures
        acts_of(final(acts)@) == acts_of(old(acts)@).push(status_act(s@)),
{
    let text = status_text(s);
    set_config(acts, "fc_status", text.as_str());
}

// ────────────────────────────── notifications ──────────────────────────────
/// Notifies, where the user wants it.
pub fn notify_if_enabled(on: bool, title: &str, body: &str, acts: &mut Vec<Act>)
    ensures
        acts_of(final(acts)@) == acts_of(old(acts)@) + notice(on, title@, body@),
{
    notify(acts, on, title, body);
}

// ────────────────────────────────── stop ───────────────────────────────────
/// The stop flag goes up, where there is a worker to see it.
pub open spec fn raise(worker: bool) -> Seq<ActView> {
    if worker {
        seq![ActView::RaiseStop]
    } else {
        Seq::empty()
    }
}

pub(crate) fn raise_stop(worker: bool, acts: &mut Vec<Act>)
    ensures
        acts_of(final(acts)@) == acts_of(old(acts)@) + raise(worker),
{
    if worker {
        ask(acts, Act::RaiseStop);
    }
}

/// A timer is stopped, where it is armed.
pub open spec fn disarm(id: u64) -> Seq<ActView> {
    if id != 0 {
        seq![ActView::ClearInterval(id)]
    } else {
        Seq::empty()
    }
}

pub(crate) fn disarm_timer(id: u64, acts: &mut Vec<Act>)
    ensures
        acts_of(final(acts)@) == acts_of(old(acts)@) + disarm(id),
{
    if id != 0 {
        clear_interval(acts, id);
    }
}

/// A session after a request to stop.
pub open spec fn stopped(v: SessionView) -> SessionView {
    SessionView { phase: Phase::Stopping, ..v }
}

/// What a request to stop asks for: the stop flag, then silence, then the
/// status, a log line and a notification.
pub open spec fn stop_acts(v: SessionView) -> Seq<ActView> {
    raise(v.worker) + seq![
        ActView::Mixing(false),
        status_act(stopped(v)),
        ActView::Log(LOG_INFO, "capture stop requested ("@ + v.app + ")"@),
    ] + notice(v.notify_on, "FocusCapture"@, "已停止捕获 "@ + v.app)
}

/// Stops the mixing at once; the worker winds down on its own and a later tick
/// reaps it.
pub fn request_stop(s: &mut Session, acts: &mut Vec<Act>)
    ensures
        final(s)@ == stopped(old(s)@),
        acts_of(final(acts)@) == acts_of(old(acts)@) + stop_acts(old(s)@),
{
    raise_stop(s.worker, acts);
    ask(acts, Act::Mixing(false));
    s.phase = Phase::Stopping;
    write_status(s, acts);
    let mut line = "capture stop requested (".to_string();
    line.append(s.app.as_str());
    line.append(")");
    log_info(acts, line.as_str());
    let mut body = "已停止捕获 ".to_string();
    body.append(s.app.as_str());
    notify_if_enabled(s.notify_on, "FocusCapture", body.as_str(), acts);
}

// ────────────────────────────────── reap ───────────────────────────────────
/// What to do about the worker's thread.
#[derive(Clone, Copy, PartialEq, Eq, Structural, Debug)]
pub enum ReapStep {
    /// It has ended: join it.
    Join,
    /// Look again after `REAP_POLL_MS`.
    Rest,
    /// The budget is spent.
    GiveUp,
}

/// Waits for the worker's thread, but no longer than the budget: a budget of
/// zero only joins a thread that has ended already.
pub fn reap_step(finished: bool, waited_ns: u128, budget_ns: u128) -> (r: ReapStep)
    ensures
        r == ReapStep::Join <==> finished,
        r == ReapStep::Rest <==> !finished && waited_ns < budget_ns,
        r == ReapStep::GiveUp <==> !finished && waited_ns >= budget_ns,
{
    if finished {
        ReapStep::Join
    } else if waited_ns < budget_ns {
        ReapStep::Rest
    } else {
        ReapStep::GiveUp
    }
}

/// Waits for the worker's thread at the end of the plugin, however long it
/// takes: it must be joined, since its code is about to be unmapped.
pub fn deinit_step(finished: bool) -> (r: ReapStep)
    ensures
        r == if finished {
            ReapStep::Join
        } else {
            ReapStep::Rest
        },
{
    if finished {
        ReapStep::Join
    } else {
        ReapStep::Rest
    }
}

/// What has become of the worker's thread.
#[derive(Clone, Copy, PartialEq, Eq, Structural, Debug)]
pub enum ThreadEnd {
    Alive,
    Joined,
    /// Joined; it had panicked.
    Panicked,
}

/// Whether no worker remains.
pub open spec fn is_reaped(v: SessionView, end: ThreadEnd) -> bool {
    !v.worker || end != ThreadEnd::Alive
}

/// A session after a look at its worker's thread: idle once it is joined.
pub open spec fn reaped(v: SessionView, end: ThreadEnd) -> SessionView {
    if v.worker && end != ThreadEnd::Alive {
        SessionView { phase: Phase::Idle, worker: false, interval_id: 0, ..v }
    } else {
        v
    }
}

/// What a joined worker asks for: word of its panic, silence, and no more
/// ticks.
pub open spec fn reap_acts(v: SessionView, end: ThreadEnd) -> Seq<ActView> {
    if v.worker && end != ThreadEnd::Alive {
        (if end == ThreadEnd::Panicked {
            seq![
                ActView::Log(
                    LOG_ERROR,
                    "capture worker panicked (contained by thread boundary)"@,
                ),
            ]
        } else {
            Seq::empty()
        }) + seq![ActView::Mixing(false)] + disarm(v.interval_id)
    } else {
        Seq::empty()
    }
}

/// Lets go of a worker whose thread has been joined. Says whether no worker
/// remains.
pub fn reap_worker(s: &mut Session, end: ThreadEnd, acts: &mut Vec<Act>) -> (r: bool)
    ensures
        r == is_reaped(old(s)@, end),
        final(s)@ == reaped(old(s)@, end),
        acts_of(final(acts)@) == acts_of(old(acts)@) + reap_acts(old(s)@, end),
{
    if !s.worker {
        return true;
    }
    if end == ThreadEnd::Alive {
        return false;
    }
    if end == ThreadEnd::Panicked {
        log_error(acts, "capture worker panicked (contained by thread boundary)");
    }
    s.worker = false;
    s.phase = Phase::Idle;
    ask(acts, Act::Mixing(false));
    disarm_timer(s.interval_id, acts);
    s.interval_id = 0;
    true
}

// ───────────────────────────────── finish ──────────────────────────────────
/// Word of the buffers that the platform flagged, where there are any.
pub open spec fn glitches(disc: u32) -> Seq<ActView> {
    if disc > 0 {
        seq![
            ActView::Log(
                LOG_WARN,
                "WASAPI reported "@ + decimal(disc as nat)
                    + " discontinuous buffer(s) during this session (device glitches / CPU starvation)"@,
            ),
        ]
    } else {
        Seq::empty()
    }
}

/// A session that is to end, with what is to be told of it.
pub open spec fn finishing(
    v: SessionView,
    report: Option<(Seq<char>, Seq<char>)>,
) -> SessionView {
    match report {
        Some(r) => SessionView {
            phase: Phase::Stopping,
            last_error: r.1,
            pending_report: Some(r),
            ..v
        },
        None => v,
    }
}

/// What the end of a session asks for first: where there is something to tell,
/// the mixing stops at once and the worker is told to.
pub open spec fn finishing_acts(
    v: SessionView,
    report: Option<(Seq<char>, Seq<char>)>,
    disc: u32,
) -> Seq<ActView> {
    glitches(disc) + (if report is Some {
        seq![ActView::Mixing(false)] + raise(v.worker)
    } else {
        Seq::empty()
    })
}

/// Begins to end a session. `disc` is the number of buffers that the platform
/// flagged.
pub fn begin_finish(s: &mut Session, report: Option<Report>, disc: u32, acts: &mut Vec<Act>)
    ensures
        final(s)@ == finishing(old(s)@, report_of(report)),
        acts_of(final(acts)@) == acts_of(old(acts)@) + finishing_acts(
            old(s)@,
            report_of(report),
            disc,
        ),
{
    if disc > 0 {
        let mut line = "WASAPI reported ".to_string();
        push_decimal(&mut line, disc as u128);
        line.append(
            " discontinuous buffer(s) during this session (device glitches / CPU starvation)",
        );
        log_warn(acts, line.as_str());
    }
    match report {
        Some(r) => {
            ask(acts, Act::Mixing(false));
            s.last_error = r.body.clone();
            s.pending_report = Some(r);
            raise_stop(s.worker, acts);
            s.phase = Phase::Stopping;
        },
        None => {},
    }
}

/// A session after the look at its worker's thread that ends it: once no worker
/// remains, nothing is left to tell.
pub open spec fn finished(v: SessionView, end: ThreadEnd) -> SessionView {
    if is_reaped(v, end) {
        SessionView { pending_report: None, ..reaped(v, end) }
    } else {
        v
    }
}

/// What is told of a session that ended.
pub open spec fn told(v: SessionView) -> Seq<ActView> {
    match v.pending_report {
        Some((title, body)) => seq![ActView::Log(LOG_ERROR, title + ": "@ + body)] + notice(
            v.notify_on,
            title,
            body,
        ),
        None => Seq::empty(),
    }
}

/// What the end of a session asks for last: the report once the worker is gone,
/// and the status in any case.
pub open spec fn finish_acts(v: SessionView, end: ThreadEnd) -> Seq<ActView> {
    if is_reaped(v, end) {
        reap_acts(v, end) + told(v) + seq![status_act(finished(v, end))]
    } else {
        seq![status_act(v)]
    }
}

/// Ends a session whose worker is gone; while it is not, the next tick tries
/// again.
pub fn end_finish(s: &mut Session, end: ThreadEnd, acts: &mut Vec<Act>)
    ensures
        final(s)@ == finished(old(s)@, end),
        acts_of(final(acts)@) == acts_of(old(acts)@) + finish_acts(old(s)@, end),
{
    if !reap_worker(s, end, acts) {
        write_status(s, acts);
        return;
    }
    let mut pending: Option<Report> = None;
    std::mem::swap(&mut pending, &mut s.pending_report);
    match pending {
        Some(r) => {
            let mut line = r.title.clone();
            line.append(": ");
            line.append(r.body.as_str());
            log_error(acts, line.as_str());
            notify_if_enabled(s.notify_on, r.title.as_str(), r.body.as_str(), acts);
        },
        None => {},
    }
    write_status(s, acts);
}

// ──────────────────────────────── watchdog ─────────────────────────────────
/// What a tick leads to.
pub enum Verdict {
    Keep,
    /// Read the settings again.
    Apply,
    /// End the session, with something to tell or not.
    Finish(Option<Report>),
}

/// What a tick leads to, as a value.
pub enum VerdictView {
    Keep,
    Apply,
    Finish(Option<(Seq<char>, Seq<char>)>),
}

impl View for Verdict {
    type V = VerdictView;

    open spec fn view(&self) -> VerdictView {
        match self {
            Verdict::Keep => VerdictView::Keep,
            Verdict::Apply => VerdictView::Apply,
            Verdict::Finish(r) => VerdictView::Finish(report_of(*r)),
        }
    }
}

/// The stream has just opened.
pub open spec fn opens(v: SessionView, shared: Option<&WorkerShared>) -> bool {
    v.phase == Phase::Starting && shared is Some && shared->0.phase == PHASE_RUNNING
}

/// The stream takes too long to open.
pub open spec fn overdue(
    v: SessionView,
    shared: Option<&WorkerShared>,
    elapsed_ns: u128,
) -> bool {
    v.phase == Phase::Starting && shared is Some && shared->0.phase != PHASE_RUNNING
        && shared->0.phase != PHASE_FINISHED && elapsed_ns > START_TIMEOUT_NS
}

/// A session after a tick.
pub open spec fn ticked(v: SessionView, shared: Option<&WorkerShared>) -> SessionView {
    let w = SessionView { ticks: v.ticks.wrapping_add(1), ..v };
    if opens(v, shared) {
        SessionView {
            phase: Phase::Running,
            rate: shared->0.rate,
            channels: shared->0.channels,
            ..w
        }
    } else if v.phase == Phase::Idle {
        SessionView { interval_id: 0, ..w }
    } else {
        w
    }
}

/// What a tick leads to.
pub open spec fn verdict(
    v: SessionView,
    shared: Option<&WorkerShared>,
    elapsed_ns: u128,
) -> VerdictView {
    match (v.phase, shared) {
        (Phase::Idle, _) => VerdictView::Keep,
        (Phase::Stopping, _) => VerdictView::Finish(None),
        (_, None) => VerdictView::Finish(None),
        (Phase::Starting, Some(w)) => if w.phase == PHASE_FINISHED {
            VerdictView::Finish(Some(("捕获失败"@, reason(w.error@))))
        } else if overdue(v, shared, elapsed_ns) {
            VerdictView::Finish(
                Some(
                    (
                        "捕获启动超时"@,
                        "音频引擎在 8 秒内未完成进程环回激活（系统为 Windows 10 2004 以下？音频服务异常？）"@,
                    ),
                ),
            )
        } else {
            VerdictView::Keep
        },
        (Phase::Running, Some(w)) => if w.target_exited {
            VerdictView::Finish(
                Some(("FocusCapture"@, "目标应用 "@ + v.app + " 已退出，捕获自动停止"@)),
            )
        } else if w.phase == PHASE_FINISHED {
            VerdictView::Finish(Some(("捕获中断"@, reason(w.error@))))
        } else if v.ticks.wrapping_add(1) % 5 == 0 {
            VerdictView::Apply
        } else {
            VerdictView::Keep
        },
    }
}

/// What is told of a session that runs.
pub open spec fn running_text(v: SessionView) -> Seq<char> {
    v.app + " (pid "@ + decimal(v.pid as nat) + ") 的声音已混入麦克风流 · "@ + decimal(
        v.rate as nat,
    ) + "Hz/"@ + decimal(v.channels as nat) + "ch"@
}

/// What a tick asks for.
pub open spec fn tick_acts(
    v: SessionView,
    shared: Option<&WorkerShared>,
    elapsed_ns: u128,
) -> Seq<ActView> {
    let w = ticked(v, shared);
    if opens(v, shared) {
        seq![
            ActView::Mixing(true),
            status_act(w),
            ActView::Log(LOG_INFO, "capture running: "@ + running_text(w)),
        ] + notice(v.notify_on, "🎯 正在捕获焦点应用"@, running_text(w))
    } else if overdue(v, shared, elapsed_ns) {
        raise(v.worker)
    } else if v.phase == Phase::Idle {
        disarm(v.interval_id)
    } else {
        Seq::empty()
    }
}

/// The worker's stream is open: the mixing begins.
fn open_stream(s: &mut Session, rate: u32, channels: u32, acts: &mut Vec<Act>)
    ensures
        final(s)@ == (SessionView { phase: Phase::Running, rate, channels, ..old(s)@ }),
        acts_of(final(acts)@) == acts_of(old(acts)@) + (seq![
            ActView::Mixing(true),
            status_act(final(s)@),
            ActView::Log(LOG_INFO, "capture running: "@ + running_text(final(s)@)),
        ] + notice(old(s)@.notify_on, "🎯 正在捕获焦点应用"@, running_text(final(s)@))),
{
    s.phase = Phase::Running;
    s.rate = rate;
    s.channels = channels;
    ask(acts, Act::Mixing(true));
    write_status(s, acts);
    let mut msg = s.app.clone();
    msg.append(" (pid ");
    push_decimal(&mut msg, s.pid as u128);
    msg.append(") 的声音已混入麦克风流 · ");
    push_decimal(&mut msg, s.rate as u128);
    msg.append("Hz/");
    push_decimal(&mut msg, s.channels as u128);
    msg.append("ch");
    let mut line = "capture running: ".to_string();
    line.append(msg.as_str());
    log_info(acts, line.as_str());
    notify_if_enabled(s.notify_on, "🎯 正在捕获焦点应用", msg.as_str(), acts);
}

/// A watchdog tick: moves the session on by what the worker reports.
/// `elapsed_ns` is the time since the start of the session.
pub fn watchdog(
    s: &mut Session,
    shared: Option<&WorkerShared>,
    elapsed_ns: u128,
    acts: &mut Vec<Act>,
) -> (r: Verdict)
    ensures
        final(s)@ == ticked(old(s)@, shared),
        r@ == verdict(old(s)@, shared, elapsed_ns),
        acts_of(final(acts)@) == acts_of(old(acts)@) + tick_acts(old(s)@, shared, elapsed_ns),
        r is Apply <==> old(s).phase == Phase::Running && (shared matches Some(w)
            && !w.target_exited && w.phase != PHASE_FINISHED) && final(s).ticks % 5 == 0,
{
    s.ticks = s.ticks.wrapping_add(1);
    match s.phase {
        Phase::Starting => match shared {
            None => Verdict::Finish(None),
            Some(w) => {
                if w.phase == PHASE_RUNNING {
                    open_stream(s, w.rate, w.channels, acts);
                    Verdict::Keep
                } else if w.phase == PHASE_FINISHED {
                    Verdict::Finish(
                        Some(Report { title: "捕获失败".to_string(), body: worker_error(w) }),
                    )
                } else if elapsed_ns > START_TIMEOUT_NS {
                    raise_stop(s.worker, acts);
                    Verdict::Finish(
                        Some(
                            Report {
                                title: "捕获启动超时".to_string(),
                                body:
                                    "音频引擎在 8 秒内未完成进程环回激活（系统为 Windows 10 2004 以下？音频服务异常？）".to_string(),
                            },
                        ),
                    )
                } else {
                    Verdict::Keep
                }
            },
        },
        Phase::Running => match shared {
            None => Verdict::Finish(None),
            Some(w) => {
                if w.target_exited {
                    let mut body = "目标应用 ".to_string();
                    body.append(s.app.as_str());
                    body.append(" 已退出，捕获自动停止");
                    Verdict::Finish(Some(Report { title: "FocusCapture".to_string(), body }))
                } else if w.phase == PHASE_FINISHED {
                    Verdict::Finish(
                        Some(Report { title: "捕获中断".to_string(), body: worker_error(w) }),
                    )
                } else if s.ticks % 5 == 0 {
                    Verdict::Apply
                } else {
                    Verdict::Keep
                }
            },
        },
        Phase::Stopping => Verdict::Finish(None),
        Phase::Idle => {
            disarm_timer(s.interval_id, acts);
            s.interval_id = 0;
            Verdict::Keep
        },
    }
}

// ────────────────────────────────── start ──────────────────────────────────
/// What a press of the hotkey leads to.
#[derive(Clone, Copy, PartialEq, Eq, Structural, Debug)]
pub enum Press {
    /// Start a session.
    Start,
    /// The session was told to stop.
    Stopped,
    /// Wait for the previous worker, then start a session.
    ReapFirst,
}

/// A press of the hotkey: starts a session, or stops the one that lives.
pub fn toggle(s: &mut Session, acts: &mut Vec<Act>) -> (r: Press)
    ensures
        r == match old(s)@.phase {
            Phase::Idle => Press::Start,
            Phase::Starting | Phase::Running => Press::Stopped,
            Phase::Stopping => Press::ReapFirst,
        },
        final(s)@ == if r == Press::Stopped {
            stopped(old(s)@)
        } else {
            old(s)@
        },
        acts_of(final(acts)@) == if r == Press::Stopped {
            acts_of(old(acts)@) + stop_acts(old(s)@)
        } else {
            acts_of(old(acts)@)
        },
{
    match s.phase {
        Phase::Idle => Press::Start,
        Phase::Starting | Phase::Running => {
            request_stop(s, acts);
            Press::Stopped
        },
        Phase::Stopping => Press::ReapFirst,
    }
}

/// Whether a session can start once the previous worker was waited for.
pub fn restart(reaped: bool, acts: &mut Vec<Act>) -> (r: bool)
    ensures
        r == reaped,
        acts_of(final(acts)@) == if reaped {
            acts_of(old(acts)@)
        } else {
            acts_of(old(acts)@).push(
                ActView::Log(
                    LOG_WARN,
                    "worker still winding down; press the hotkey again shortly"@,
                ),
            )
        },
{
    if !reaped {
        log_warn(acts, "worker still winding down; press the hotkey again shortly");
    }
    reaped
}

/// The process to capture: the foreground one, unless it is our own.
pub open spec fn target_of(foreground: Option<u32>, own: u32) -> Option<u32> {
    match foreground {
        Some(pid) => if pid == own {
            None
        } else {
            Some(pid)
        },
        None => None,
    }
}

/// What a refused target asks for.
pub open spec fn refusal(on: bool, foreground: Option<u32>, own: u32) -> Seq<ActView> {
    match foreground {
        None => seq![
            ActView::Log(LOG_WARN, "no foreground window — cannot resolve target process"@),
        ] + notice(
            on,
            "无法确定焦点应用"@,
            "没有检测到前台窗口，请把目标应用切到前台后再按快捷键"@,
        ),
        Some(pid) => if pid == own {
            notice(
                on,
                "不能捕获 MicYou 自身"@,
                "监听/耳返声音会被再次混入麦克风形成回声反馈。请先切换到目标应用再按快捷键"@,
            )
        } else {
            Seq::empty()
        },
    }
}

/// Picks the process to capture.
pub fn start_target(
    s: &Session,
    foreground: Option<u32>,
    own: u32,
    acts: &mut Vec<Act>,
) -> (r: Option<u32>)
    ensures
        r == target_of(foreground, own),
        acts_of(final(acts)@) == acts_of(old(acts)@) + refusal(s@.notify_on, foreground, own),
        r is None <==> foreground is None || foreground == Some(own),
        r is Some ==> r == foreground && acts_of(final(acts)@) == acts_of(old(acts)@),
        r is None && s@.notify_on ==> acts_of(final(acts)@).last() is Notify,
{
    match foreground {
        None => {
            log_warn(acts, "no foreground window — cannot resolve target process");
            notify_if_enabled(
                s.notify_on,
                "无法确定焦点应用",
                "没有检测到前台窗口，请把目标应用切到前台后再按快捷键",
                acts,
            );
            None
        },
        Some(pid) => {
            if pid == own {
                notify_if_enabled(
                    s.notify_on,
                    "不能捕获 MicYou 自身",
                    "监听/耳返声音会被再次混入麦克风形成回声反馈。请先切换到目标应用再按快捷键",
                    acts,
                );
                None
            } else {
                Some(pid)
            }
        },
    }
}

/// The timer that a session has, where `granted` is what the host gave.
pub open spec fn armed(interval_id: u64, granted: u64) -> u64 {
    if interval_id == 0 {
        granted
    } else {
        interval_id
    }
}

/// Word of a host without timers.
pub open spec fn unarmed(interval_id: u64) -> Seq<ActView> {
    if interval_id == 0 {
        seq![
            ActView::Log(
                LOG_WARN,
                "host interval unavailable — capture still works, but status/notifications are delayed until the next host-dispatched message"@,
            ),
        ]
    } else {
        Seq::empty()
    }
}

/// Whether the host is to be asked for a timer.
pub fn wants_timer(s: &Session) -> (r: bool)
    ensures
        r == (s@.interval_id == 0),
{
    s.interval_id == 0
}

/// Arms the watchdog, unless it is armed: `granted` is the timer that the host
/// gave (0 = none).
pub fn ensure_watchdog(s: &mut Session, granted: u64, acts: &mut Vec<Act>)
    ensures
        final(s)@ == (SessionView {
            interval_id: armed(old(s)@.interval_id, granted),
            ..old(s)@
        }),
        acts_of(final(acts)@) == acts_of(old(acts)@) + unarmed(
            armed(old(s)@.interval_id, granted),
        ),
{
    if s.interval_id == 0 {
        s.interval_id = granted;
        if s.interval_id == 0 {
            log_warn(
                acts,
                "host interval unavailable — capture still works, but status/notifications are delayed until the next host-dispatched message",
            );
        }
    }
}

/// What a process is called, by its name or else by its id.
pub open spec fn app_name(pid: u32, name: Seq<char>) -> Seq<char> {
    if name.len() == 0 {
        "pid:"@ + decimal(pid as nat)
    } else {
        name
    }
}

/// A session whose worker was just spawned.
pub open spec fn started(v: SessionView, pid: u32, name: Seq<char>, granted: u64) -> SessionView {
    SessionView {
        phase: Phase::Starting,
        worker: true,
        app: app_name(pid, name),
        pid,
        rate: 0,
        channels: 0,
        pending_report: None,
        last_error: Seq::empty(),
        interval_id: armed(v.interval_id, granted),
        ..v
    }
}

/// What a spawned worker asks for.
pub open spec fn start_acts(
    v: SessionView,
    pid: u32,
    name: Seq<char>,
    granted: u64,
) -> Seq<ActView> {
    let w = started(v, pid, name, granted);
    unarmed(w.interval_id) + seq![
        status_act(w),
        ActView::Log(
            LOG_INFO,
            "capture starting: "@ + w.app + " (pid "@ + decimal(pid as nat) + ")"@,
        ),
    ]
}

/// A worker was spawned for process `pid` of that name; `granted` is the timer
/// that the host gave, where none was armed.
pub fn capture_started(
    s: &mut Session,
    pid: u32,
    name: String,
    granted: u64,
    acts: &mut Vec<Act>,
)
    ensures
        final(s)@ == started(old(s)@, pid, name@, granted),
        acts_of(final(acts)@) == acts_of(old(acts)@) + start_acts(old(s)@, pid, name@, granted),
{
    s.worker = true;
    s.phase = Phase::Starting;
    if name.as_str().is_empty() {
        let mut app = "pid:".to_string();
        push_decimal(&mut app, pid as u128);
        s.app = app;
    } else {
        s.app = name;
    }
    s.pid = pid;
    s.rate = 0;
    s.channels = 0;
    s.pending_report = None;
    s.last_error = String::new();
    ensure_watchdog(s, granted, acts);
    write_status(s, acts);
    let mut line = "capture starting: ".to_string();
    line.append(s.app.as_str());
    line.append(" (pid ");
    push_decimal(&mut line, pid as u128);
    line.append(")");
    log_info(acts, line.as_str());
}

/// A session whose worker could not be spawned.
pub open spec fn unstarted(v: SessionView, error: Seq<char>) -> SessionView {
    SessionView { last_error: "采集线程启动失败: "@ + error, ..v }
}

/// The worker could not be spawned.
pub fn capture_failed(s: &mut Session, error: &str, acts: &mut Vec<Act>)
    ensures
        final(s)@ == unstarted(old(s)@, error@),
        acts_of(final(acts)@) == acts_of(old(acts)@) + (seq![
            ActView::Log(LOG_ERROR, final(s)@.last_error),
            status_act(final(s)@),
        ] + notice(old(s)@.notify_on, "捕获启动失败"@, final(s)@.last_error)),
{
    let mut msg = "采集线程启动失败: ".to_string();
    msg.append(error);
    log_error(acts, msg.as_str());
    s.last_error = msg.clone();
    write_status(s, acts);
    notify_if_enabled(s.notify_on, "捕获启动失败", msg.as_str(), acts);
}

} // verus!
