//! Settings: the hotkey's delivery, the configuration, and the start and end of
//! the plugin.
//!
//! The host cannot release a combination that it registered. So the delivery of
//! a changed combination goes by another handle, and the session keeps every
//! registration to take it up again.
use crate::abi::{
    acts_of, ask, log_error, log_info, set_panel_icon, Act, ActView, LOG_ERROR, LOG_INFO,
};
use crate::hotkey::{parse, parsed};
use crate::json::{bool_spelled, config_bool, config_string, json_string};
use crate::session::{
    disarm, disarm_timer, fresh, held_of, raise, raise_stop, status_act, write_status, Phase,
    Registration, Session, SessionView,
};
use crate::text::{decimal, push_decimal, same};
use vstd::prelude::*;
use vstd::string::StringExecFns;

verus! {

/// The combination where the configuration names none.
pub const DEFAULT_HOTKEY: &'static str = "ctrl+shift+f8";

// ────────────────────────────────── hotkey ─────────────────────────────────
/// The handle under which the host holds a combination; zero is none.
pub open spec fn handle_for(held: Seq<(Seq<char>, u64)>, combo: Seq<char>) -> Option<u64>
    decreases held.len(),
{
    if held.len() == 0 {
        None
    } else if held[0].0 == combo && held[0].1 != 0 {
        Some(held[0].1)
    } else {
        handle_for(held.skip(1), combo)
    }
}

fn held_handle(held: &Vec<Registration>, combo: &str) -> (r: Option<u64>)
    ensures
        r == handle_for(held_of(held@), combo@),
{
    let ghost all = held_of(held@);
    let n: usize = held.len();
    let mut i: usize = 0;
    assert(all.skip(0) == all);
    while i < n
        invariant
            i <= n,
            n == held@.len(),
            all == held_of(held@),
            handle_for(all, combo@) == handle_for(all.skip(i as int), combo@),
        decreases n - i,
    {
        assert(all.skip(i as int)[0] == (held@[i as int].combo@, held@[i as int].id));
        if held[i].id != 0 && same(held[i].combo.as_str(), combo) {
            return Some(held[i].id);
        }
        assert(all.skip(i as int).skip(1) == all.skip(i + 1));
        i = i + 1;
    }
    None
}

/// Whether the configured combination is to be registered with the host: it is
/// valid, and the host does not hold it yet.
pub open spec fn to_register(v: SessionView) -> bool {
    handle_for(v.held, v.hotkey_text) is None && parsed(v.hotkey_text) is Ok
}

/// A session that has planned the delivery of its configured combination: by a
/// registration that the host holds, or by one that it is to be asked for, or
/// not at all.
pub open spec fn planned(v: SessionView) -> SessionView {
    match handle_for(v.held, v.hotkey_text) {
        Some(id) => SessionView {
            hotkey_id: id,
            host_hotkey_active: true,
            hotkey_ok: true,
            last_error: Seq::empty(),
            ..v
        },
        None => SessionView {
            host_hotkey_active: false,
            hotkey_ok: false,
            last_error: match parsed(v.hotkey_text) {
                Ok(_) => v.last_error,
                Err(e) => "快捷键不可用："@ + e,
            },
            ..v
        },
    }
}

/// Plans the delivery of the configured combination. Returns the combination
/// that the host is to be asked to register, where it is to be asked.
pub fn plan_hotkey(s: &mut Session) -> (r: Option<String>)
    ensures
        final(s)@ == planned(old(s)@),
        r is Some <==> to_register(old(s)@),
        r matches Some(combo) ==> combo@ == old(s)@.hotkey_text,
{
    match held_handle(&s.held, s.hotkey_text.as_str()) {
        Some(id) => {
            s.hotkey_id = id;
            s.host_hotkey_active = true;
            s.hotkey_ok = true;
            s.last_error = String::new();
            return None;
        },
        None => {},
    }
    s.host_hotkey_active = false;
    s.hotkey_ok = false;
    match parse(s.hotkey_text.as_str()) {
        Err(e) => {
            let mut error = "快捷键不可用：".to_string();
            error.append(e.as_str());
            s.last_error = error;
            None
        },
        Ok(_) => Some(s.hotkey_text.clone()),
    }
}

/// A session after the host's answer to a registration (0 = refused).
pub open spec fn registered(v: SessionView, id: u64) -> SessionView {
    if id != 0 {
        SessionView {
            hotkey_id: id,
            held: v.held.push((v.hotkey_text, id)),
            host_hotkey_active: true,
            hotkey_ok: true,
            ..v
        }
    } else {
        SessionView {
            last_error: "快捷键注册失败：可能与其他程序冲突或格式非法（宿主 register_hotkey 拒绝）"@,
            ..v
        }
    }
}

/// The host has answered a registration of the configured combination.
pub fn hotkey_registered(s: &mut Session, id: u64)
    ensures
        final(s)@ == registered(old(s)@, id),
{
    if id != 0 {
        s.hotkey_id = id;
        let combo = s.hotkey_text.clone();
        s.held.push(Registration { combo, id });
        s.host_hotkey_active = true;
        s.hotkey_ok = true;
        assert(held_of(s.held@) =~= held_of(old(s).held@).push((old(s).hotkey_text@, id)));
    } else {
        s.last_error =
        "快捷键注册失败：可能与其他程序冲突或格式非法（宿主 register_hotkey 拒绝）".to_string();
    }
}

// ─────────────────────────────── configuration ─────────────────────────────
/// The configured combination, where `stored` is what the host keeps.
pub open spec fn combo_stored(stored: Seq<char>) -> Seq<char> {
    match json_string(stored) {
        Some(s) => s,
        None => DEFAULT_HOTKEY@,
    }
}

/// The configured wish for notifications, where `stored` is what the host
/// keeps.
pub open spec fn notify_stored(stored: Seq<char>) -> bool {
    match bool_spelled(stored) {
        Some(b) => b,
        None => true,
    }
}

/// A session to which settings were applied, up to the host's answer to a
/// registration.
pub open spec fn applied(v: SessionView, notify_on: bool, combo: Seq<char>) -> SessionView {
    if combo == v.hotkey_text {
        SessionView { notify_on, ..v }
    } else {
        planned(
            SessionView { notify_on, hotkey_text: combo, last_error: Seq::empty(), ..v },
        )
    }
}

/// Whether settings change the combination to one that the host is to be asked
/// for.
pub open spec fn apply_asks(v: SessionView, combo: Seq<char>) -> bool {
    combo != v.hotkey_text && to_register(SessionView { hotkey_text: combo, ..v })
}

/// Word of a changed combination.
pub open spec fn replanned(v: SessionView) -> Seq<ActView> {
    seq![
        ActView::Log(
            LOG_INFO,
            "hotkey re-planned: ["@ + v.hotkey_text + "] (ok="@ + (if v.hotkey_ok {
                "true"@
            } else {
                "false"@
            }) + ")"@,
        ),
        status_act(v),
    ]
}

/// Tells of a changed combination, once its delivery is settled.
pub fn hotkey_replanned(s: &Session, acts: &mut Vec<Act>)
    ensures
        acts_of(final(acts)@) == acts_of(old(acts)@) + replanned(s@),
{
    let mut line = "hotkey re-planned: [".to_string();
    line.append(s.hotkey_text.as_str());
    line.append("] (ok=");
    if s.hotkey_ok {
        line.append("true");
    } else {
        line.append("false");
    }
    line.append(")");
    log_info(acts, line.as_str());
    write_status(s, acts);
}

/// Applies settings while the plugin runs. Returns the combination that the
/// host is to be asked to register, where it is to be asked; its answer goes to
/// `hotkey_registered` and `hotkey_replanned`.
pub fn apply_settings(
    s: &mut Session,
    notify_on: bool,
    combo: String,
    acts: &mut Vec<Act>,
) -> (r: Option<String>)
    ensures
        final(s)@ == applied(old(s)@, notify_on, combo@),
        r is Some <==> apply_asks(old(s)@, combo@),
        r matches Some(c) ==> c@ == combo@,
        acts_of(final(acts)@) == if combo@ == old(s)@.hotkey_text || r is Some {
            acts_of(old(acts)@)
        } else {
            acts_of(old(acts)@) + replanned(final(s)@)
        },
{
    s.notify_on = notify_on;
    if same(combo.as_str(), s.hotkey_text.as_str()) {
        return None;
    }
    s.hotkey_text = combo;
    s.last_error = String::new();
    match plan_hotkey(s) {
        Some(c) => Some(c),
        None => {
            hotkey_replanned(s, acts);
            None
        },
    }
}

/// Applies the settings that the host keeps. Returns the combination that the
/// host is to be asked to register, where it is to be asked.
pub fn apply_config(
    s: &mut Session,
    notify_raw: &str,
    hotkey_raw: &str,
    acts: &mut Vec<Act>,
) -> (r: Option<String>)
    ensures
        final(s)@ == applied(old(s)@, notify_stored(notify_raw@), combo_stored(hotkey_raw@)),
        r is Some <==> apply_asks(old(s)@, combo_stored(hotkey_raw@)),
        r matches Some(c) ==> c@ == combo_stored(hotkey_raw@),
        acts_of(final(acts)@) == if combo_stored(hotkey_raw@) == old(s)@.hotkey_text || r is Some {
            acts_of(old(acts)@)
        } else {
            acts_of(old(acts)@) + replanned(final(s)@)
        },
{
    let notify_on: bool = config_bool(notify_raw, true);
    let combo = config_string(hotkey_raw, DEFAULT_HOTKEY);
    apply_settings(s, notify_on, combo, acts)
}

// ─────────────────────────────── start and end ─────────────────────────────
/// A session at the start of the plugin, up to the host's answer to a
/// registration.
pub open spec fn loaded(v: SessionView, notify_on: bool, combo: Seq<char>) -> SessionView {
    planned(
        SessionView {
            phase: Phase::Idle,
            last_error: Seq::empty(),
            hotkey_text: combo,
            notify_on,
            ..v
        },
    )
}

/// Takes up settings at the start of the plugin. Returns the combination that
/// the host is to be asked to register, where it is to be asked.
pub fn load_settings(s: &mut Session, notify_on: bool, combo: String) -> (r: Option<String>)
    ensures
        final(s)@ == loaded(old(s)@, notify_on, combo@),
        r is Some <==> to_register(SessionView { hotkey_text: combo@, ..old(s)@ }),
        r matches Some(c) ==> c@ == combo@,
{
    s.phase = Phase::Idle;
    s.last_error = String::new();
    s.hotkey_text = combo;
    s.notify_on = notify_on;
    plan_hotkey(s)
}

/// Takes up the settings that the host keeps at the start of the plugin.
pub fn load_config(s: &mut Session, hotkey_raw: &str, notify_raw: &str) -> (r: Option<String>)
    ensures
        final(s)@ == loaded(old(s)@, notify_stored(notify_raw@), combo_stored(hotkey_raw@)),
        r is Some <==> to_register(
            SessionView { hotkey_text: combo_stored(hotkey_raw@), ..old(s)@ },
        ),
        r matches Some(c) ==> c@ == combo_stored(hotkey_raw@),
{
    let combo = config_string(hotkey_raw, DEFAULT_HOTKEY);
    let notify_on: bool = config_bool(notify_raw, true);
    load_settings(s, notify_on, combo)
}

/// What the start of the plugin tells.
pub open spec fn ready_line(v: SessionView, version: Seq<char>) -> ActView {
    if v.hotkey_ok {
        ActView::Log(
            LOG_INFO,
            "FocusCapture v"@ + version + " ready — hotkey ["@ + v.hotkey_text
                + "] registered (id "@ + decimal(v.hotkey_id as nat) + ")"@,
        )
    } else {
        ActView::Log(
            LOG_ERROR,
            "hotkey unavailable for ["@ + v.hotkey_text + "]: "@ + v.last_error
                + " — plugin cannot start captures"@,
        )
    }
}

/// The plugin has started: tells so, and shows the panel.
pub fn plugin_ready(s: &Session, version: &str, acts: &mut Vec<Act>)
    ensures
        acts_of(final(acts)@) == acts_of(old(acts)@) + seq![
            ready_line(s@, version@),
            ActView::SetPanelIcon("status"@, "🎯"@),
            status_act(s@),
        ],
{
    if s.hotkey_ok {
        let mut line = "FocusCapture v".to_string();
        line.append(version);
        line.append(" ready — hotkey [");
        line.append(s.hotkey_text.as_str());
        line.append("] registered (id ");
        push_decimal(&mut line, s.hotkey_id as u128);
        line.append(")");
        log_info(acts, line.as_str());
    } else {
        let mut line = "hotkey unavailable for [".to_string();
        line.append(s.hotkey_text.as_str());
        line.append("]: ");
        line.append(s.last_error.as_str());
        line.append(" — plugin cannot start captures");
        log_error(acts, line.as_str());
    }
    set_panel_icon(acts, "status", "🎯");
    write_status(s, acts);
}

/// The plugin is about to end: the worker is told to stop and the mixing stops.
pub fn begin_deinit(s: &Session, acts: &mut Vec<Act>)
    ensures
        acts_of(final(acts)@) == acts_of(old(acts)@) + raise(s@.worker).push(
            ActView::Mixing(false),
        ),
{
    raise_stop(s.worker, acts);
    ask(acts, Act::Mixing(false));
}

/// A session after the end of the plugin: as before the start, but for the wish
/// for notifications, which stays until the next start reads it.
pub open spec fn unloaded(v: SessionView) -> SessionView {
    SessionView { notify_on: v.notify_on, ..fresh() }
}

/// The plugin ends, once the worker is joined: no more ticks, and nothing is
/// kept but the wish for notifications.
pub fn end_deinit(s: &mut Session, acts: &mut Vec<Act>)
    requires
        !old(s)@.worker,
    ensures
        final(s)@ == unloaded(old(s)@),
        acts_of(final(acts)@) == acts_of(old(acts)@) + disarm(old(s)@.interval_id),
{
    disarm_timer(s.interval_id, acts);
    let notify_on: bool = s.notify_on;
    *s = Session::new();
    s.notify_on = notify_on;
}

} // verus!
