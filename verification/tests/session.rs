use focus_capture::abi::{
    clear_host, config_text, granted_id, mpl_result_t, notify, store_host, with_host, Act, LOG_DEBUG,
    LOG_ERROR, LOG_INFO, LOG_WARN,
};
use focus_capture::capture::{WorkerShared, PHASE_FINISHED};
use focus_capture::json::{config_bool, config_string, parse_tick};
use focus_capture::message::{route, route_tick, Command};
use focus_capture::session::{
    begin_finish, capture_failed, capture_started, deinit_step, end_finish, reap_step, reap_worker,
    request_stop, restart, start_target, status_text, toggle, wants_timer, watchdog, write_status,
    Phase, Press, ReapStep, Registration, Report, Session, ThreadEnd, Verdict,
    REAP_BUDGET_HOTKEY_NS, START_TIMEOUT_NS, WATCHDOG_MS, WATCHDOG_PAYLOAD,
};
use focus_capture::settings::{
    apply_config, apply_settings, begin_deinit, end_deinit, hotkey_registered, hotkey_replanned,
    load_config, load_settings, plan_hotkey, plugin_ready, DEFAULT_HOTKEY,
};

/// An act in words.
fn word(a: &Act) -> String {
    match a {
        Act::Log(level, text) => format!("log{level} {text}"),
        Act::Notify(title, body) => format!("notify {title}|{body}"),
        Act::SetConfig(key, _) => format!("config {key}"),
        Act::SetPanelIcon(panel, icon) => format!("icon {panel} {icon}"),
        Act::ClearInterval(id) => format!("clear {id}"),
        Act::RaiseStop => "stop".to_string(),
        Act::Mixing(on) => format!("mixing {on}"),
    }
}

fn words(acts: &[Act]) -> Vec<String> {
    acts.iter().map(word).collect()
}

/// A session whose worker was spawned for a player.
fn started() -> Session {
    let mut s = Session::new();
    let mut acts = Vec::new();
    capture_started(&mut s, 42, "player".to_string(), 7, &mut acts);
    s
}

/// A session that mixes.
fn running() -> Session {
    let mut s = started();
    let mut shared = WorkerShared::new();
    shared.announce(44_100, 2);
    let mut acts = Vec::new();
    assert!(matches!(watchdog(&mut s, Some(&shared), 0, &mut acts), Verdict::Keep));
    s
}

/// The value of a string member of a flat JSON object.
fn member(text: &str, key: &str) -> serde_json::Value {
    let v: serde_json::Value = serde_json::from_str(text).unwrap();
    v.get(key).unwrap().clone()
}

#[test]
fn a_start_arms_the_watchdog_and_says_so() {
    let mut s = Session::new();
    let mut acts = Vec::new();
    capture_started(&mut s, 42, "player".to_string(), 7, &mut acts);
    assert_eq!(words(&acts), vec!["config fc_status", "log2 capture starting: player (pid 42)"]);
    assert_eq!(s.phase, Phase::Starting);
    assert_eq!((s.interval_id, s.pid, s.worker), (7, 42, true));
    assert!(!wants_timer(&s));
    assert!(wants_timer(&Session::new()));
}

#[test]
fn a_host_without_timers_is_warned_of() {
    let mut s = Session::new();
    let mut acts = Vec::new();
    capture_started(&mut s, 9, String::new(), 0, &mut acts);
    assert_eq!(
        words(&acts),
        vec![
            "log1 host interval unavailable — capture still works, but status/notifications are delayed until the next host-dispatched message",
            "config fc_status",
            "log2 capture starting: pid:9 (pid 9)",
        ]
    );
    assert_eq!(s.app, "pid:9");
}

#[test]
fn a_failed_spawn_is_told() {
    let mut s = Session::new();
    let mut acts = Vec::new();
    capture_failed(&mut s, "no threads", &mut acts);
    assert_eq!(
        words(&acts),
        vec![
            "log0 采集线程启动失败: no threads",
            "config fc_status",
            "notify 捕获启动失败|采集线程启动失败: no threads",
        ]
    );
    assert_eq!(s.last_error, "采集线程启动失败: no threads");
    assert_eq!(s.phase, Phase::Idle);
}

#[test]
fn only_another_process_is_a_target() {
    let s = Session::new();
    let mut acts = Vec::new();
    assert_eq!(start_target(&s, Some(5), 6, &mut acts), Some(5));
    assert!(acts.is_empty());
    assert_eq!(start_target(&s, None, 6, &mut acts), None);
    assert_eq!(start_target(&s, Some(6), 6, &mut acts), None);
    assert_eq!(
        words(&acts),
        vec![
            "log1 no foreground window — cannot resolve target process",
            "notify 无法确定焦点应用|没有检测到前台窗口，请把目标应用切到前台后再按快捷键",
            "notify 不能捕获 MicYou 自身|监听/耳返声音会被再次混入麦克风形成回声反馈。请先切换到目标应用再按快捷键",
        ]
    );
}

#[test]
fn mixing_begins_when_the_stream_opens() {
    let mut s = started();
    let mut shared = WorkerShared::new();
    let mut acts = Vec::new();
    assert!(matches!(watchdog(&mut s, Some(&shared), 0, &mut acts), Verdict::Keep));
    assert!(acts.is_empty());
    shared.announce(44_100, 2);
    assert!(matches!(watchdog(&mut s, Some(&shared), 0, &mut acts), Verdict::Keep));
    assert_eq!(
        words(&acts),
        vec![
            "mixing true",
            "config fc_status",
            "log2 capture running: player (pid 42) 的声音已混入麦克风流 · 44100Hz/2ch",
            "notify 🎯 正在捕获焦点应用|player (pid 42) 的声音已混入麦克风流 · 44100Hz/2ch",
        ]
    );
    assert_eq!((s.phase, s.rate, s.channels), (Phase::Running, 44_100, 2));
}

#[test]
fn the_second_press_stops_first_the_worker_then_the_mixing() {
    let mut s = running();
    let mut acts = Vec::new();
    assert_eq!(toggle(&mut s, &mut acts), Press::Stopped);
    assert_eq!(
        words(&acts),
        vec![
            "stop",
            "mixing false",
            "config fc_status",
            "log2 capture stop requested (player)",
            "notify FocusCapture|已停止捕获 player",
        ]
    );
    assert_eq!(s.phase, Phase::Stopping);
    assert_eq!(toggle(&mut s, &mut acts), Press::ReapFirst);
    assert_eq!(toggle(&mut Session::new(), &mut acts), Press::Start);
    assert_eq!(acts.len(), 5);
}

#[test]
fn notifications_can_be_switched_off() {
    let mut s = running();
    s.notify_on = false;
    let mut acts = Vec::new();
    request_stop(&mut s, &mut acts);
    assert!(words(&acts).iter().all(|w| !w.starts_with("notify")));
    acts.clear();
    notify(&mut acts, false, "t", "b");
    assert!(acts.is_empty());
    notify(&mut acts, true, "t", "b");
    assert_eq!(words(&acts), vec!["notify t|b"]);
}

#[test]
fn a_worker_is_waited_for_within_the_budget() {
    assert_eq!(reap_step(true, 0, 0), ReapStep::Join);
    assert_eq!(reap_step(false, 0, 0), ReapStep::GiveUp);
    assert_eq!(reap_step(false, 399_999_999, REAP_BUDGET_HOTKEY_NS), ReapStep::Rest);
    assert_eq!(reap_step(false, 400_000_000, REAP_BUDGET_HOTKEY_NS), ReapStep::GiveUp);
    assert_eq!(reap_step(true, 7_000_000_000, REAP_BUDGET_HOTKEY_NS), ReapStep::Join);
    // The end of the plugin waits however long it takes.
    assert_eq!(deinit_step(false), ReapStep::Rest);
    assert_eq!(deinit_step(true), ReapStep::Join);
}

#[test]
fn a_joined_worker_ends_the_session() {
    let mut s = running();
    let mut acts = Vec::new();
    assert!(!reap_worker(&mut s, ThreadEnd::Alive, &mut acts));
    assert!(acts.is_empty() && s.worker);
    assert!(reap_worker(&mut s, ThreadEnd::Panicked, &mut acts));
    assert_eq!(
        words(&acts),
        vec![
            "log0 capture worker panicked (contained by thread boundary)",
            "mixing false",
            "clear 7",
        ]
    );
    assert_eq!((s.phase, s.worker, s.interval_id), (Phase::Idle, false, 0));
    // Without a worker there is nothing to do.
    assert!(reap_worker(&mut s, ThreadEnd::Alive, &mut acts));
    assert_eq!(acts.len(), 3);
}

#[test]
fn a_restart_waits_for_the_previous_worker() {
    let mut acts = Vec::new();
    assert!(restart(true, &mut acts));
    assert!(!restart(false, &mut acts));
    assert_eq!(
        words(&acts),
        vec!["log1 worker still winding down; press the hotkey again shortly"]
    );
}

#[test]
fn a_report_is_told_once_the_worker_is_gone() {
    let mut s = running();
    let mut acts = Vec::new();
    let report = Report { title: "T".to_string(), body: "B".to_string() };
    begin_finish(&mut s, Some(report), 3, &mut acts);
    assert_eq!(
        words(&acts),
        vec![
            "log1 WASAPI reported 3 discontinuous buffer(s) during this session (device glitches / CPU starvation)",
            "mixing false",
            "stop",
        ]
    );
    assert_eq!((s.phase, s.last_error.as_str()), (Phase::Stopping, "B"));
    acts.clear();
    end_finish(&mut s, ThreadEnd::Alive, &mut acts);
    assert_eq!(words(&acts), vec!["config fc_status"]);
    acts.clear();
    end_finish(&mut s, ThreadEnd::Joined, &mut acts);
    assert_eq!(
        words(&acts),
        vec!["mixing false", "clear 7", "log0 T: B", "notify T|B", "config fc_status"]
    );
    acts.clear();
    end_finish(&mut s, ThreadEnd::Joined, &mut acts);
    assert_eq!(words(&acts), vec!["config fc_status"]);
}

#[test]
fn a_quiet_end_says_nothing() {
    let mut s = running();
    let mut acts = Vec::new();
    request_stop(&mut s, &mut acts);
    acts.clear();
    assert!(matches!(watchdog(&mut s, None, 0, &mut acts), Verdict::Finish(None)));
    begin_finish(&mut s, None, 0, &mut acts);
    end_finish(&mut s, ThreadEnd::Joined, &mut acts);
    assert_eq!(words(&acts), vec!["mixing false", "clear 7", "config fc_status"]);
    assert_eq!(s.phase, Phase::Idle);
}

/// The report of a tick that ends a session.
fn verdict_of(s: &mut Session, shared: &WorkerShared, elapsed: u128) -> Option<(String, String)> {
    let mut acts = Vec::new();
    match watchdog(s, Some(shared), elapsed, &mut acts) {
        Verdict::Finish(Some(r)) => Some((r.title, r.body)),
        _ => None,
    }
}

#[test]
fn each_end_of_a_session_has_its_report() {
    let pair = |a: &str, b: &str| Some((a.to_string(), b.to_string()));
    let mut dead = WorkerShared::new();
    dead.conclude(false, Err("broken".to_string()));
    assert_eq!(dead.phase, PHASE_FINISHED);
    assert_eq!(verdict_of(&mut started(), &dead, 0), pair("捕获失败", "broken"));
    assert_eq!(verdict_of(&mut running(), &dead, 0), pair("捕获中断", "broken"));
    let mut mute = WorkerShared::new();
    mute.conclude(false, Ok(()));
    assert_eq!(verdict_of(&mut started(), &mute, 0), pair("捕获失败", "未知错误"));
    let mut gone = WorkerShared::default();
    gone.announce(48_000, 2);
    gone.target_exited = true;
    assert_eq!(
        verdict_of(&mut running(), &gone, 0),
        pair("FocusCapture", "目标应用 player 已退出，捕获自动停止")
    );
    let slow = WorkerShared::new();
    assert_eq!(verdict_of(&mut started(), &slow, START_TIMEOUT_NS), None);
    assert_eq!(
        verdict_of(&mut started(), &slow, START_TIMEOUT_NS + 1),
        pair(
            "捕获启动超时",
            "音频引擎在 8 秒内未完成进程环回激活（系统为 Windows 10 2004 以下？音频服务异常？）"
        )
    );
}

#[test]
fn an_overdue_start_raises_the_stop_flag() {
    let mut s = started();
    let mut acts = Vec::new();
    let slow = WorkerShared::new();
    watchdog(&mut s, Some(&slow), START_TIMEOUT_NS + 1, &mut acts);
    assert_eq!(words(&acts), vec!["stop"]);
}

#[test]
fn settings_are_read_again_every_fifth_tick() {
    let mut s = running();
    let mut shared = WorkerShared::new();
    shared.announce(48_000, 2);
    let mut acts = Vec::new();
    let applies: Vec<bool> = (0..10)
        .map(|_| matches!(watchdog(&mut s, Some(&shared), 0, &mut acts), Verdict::Apply))
        .collect();
    // One tick opened the stream.
    let want: Vec<bool> = (2..12).map(|n| n % 5 == 0).collect();
    assert_eq!(applies, want);
    assert!(acts.is_empty());
}

#[test]
fn an_idle_tick_disarms_the_watchdog() {
    let mut s = Session::new();
    s.interval_id = 3;
    let mut acts = Vec::new();
    assert!(matches!(watchdog(&mut s, None, 0, &mut acts), Verdict::Keep));
    assert_eq!(words(&acts), vec!["clear 3"]);
    assert_eq!(s.interval_id, 0);
}

#[test]
fn the_status_is_read_back() {
    let mut s = running();
    s.hotkey_text = "ctrl+\"x\"\n".to_string();
    s.hotkey_ok = true;
    s.last_error = "错误".to_string();
    let text = status_text(&s);
    assert_eq!(member(&text, "phase"), serde_json::Value::from("capturing"));
    assert_eq!(member(&text, "app"), serde_json::Value::from("player"));
    assert_eq!(member(&text, "pid"), serde_json::Value::from(42));
    assert_eq!(member(&text, "rate"), serde_json::Value::from(44_100));
    assert_eq!(member(&text, "channels"), serde_json::Value::from(2));
    assert_eq!(member(&text, "error"), serde_json::Value::from("错误"));
    assert_eq!(member(&text, "hotkey"), serde_json::Value::from("ctrl+\"x\"\n"));
    assert_eq!(member(&text, "hotkeyOk"), serde_json::Value::from(true));
    let all: serde_json::Value = serde_json::from_str(&text).unwrap();
    assert_eq!(all.as_object().unwrap().len(), 8);
    for (phase, name) in [
        (Phase::Idle, "idle"),
        (Phase::Starting, "starting"),
        (Phase::Running, "capturing"),
        (Phase::Stopping, "stopping"),
    ] {
        s.phase = phase;
        assert_eq!(member(&status_text(&s), "phase"), serde_json::Value::from(name));
    }
    let mut acts = Vec::new();
    write_status(&s, &mut acts);
    match &acts[0] {
        Act::SetConfig(key, value) => assert_eq!((key.as_str(), value), ("fc_status", &status_text(&s))),
        _ => panic!("no status"),
    }
}

#[test]
fn hotkeys_are_planned_registered_and_told() {
    let mut s = Session::new();
    assert_eq!(load_config(&mut s, "", ""), Some(DEFAULT_HOTKEY.to_string()));
    assert!(s.notify_on && !s.hotkey_ok);
    hotkey_registered(&mut s, 11);
    assert!(s.hotkey_ok && s.host_hotkey_active);
    let mut acts = Vec::new();
    plugin_ready(&s, "1.0.0", &mut acts);
    assert_eq!(
        words(&acts),
        vec![
            "log2 FocusCapture v1.0.0 ready — hotkey [ctrl+shift+f8] registered (id 11)",
            "icon status 🎯",
            "config fc_status",
        ]
    );
}

#[test]
fn an_unusable_hotkey_is_told() {
    let mut s = Session::new();
    assert_eq!(load_config(&mut s, "\"mouse4\"", "false"), None);
    assert!(!s.notify_on);
    let mut acts = Vec::new();
    plugin_ready(&s, "1.0.0", &mut acts);
    assert_eq!(
        word(&acts[0]),
        "log0 hotkey unavailable for [mouse4]: 快捷键不可用：鼠标侧键暂不支持：宿主 register_hotkey 仅支持键盘（鼠标监听计划由宿主 API 提供） — plugin cannot start captures"
    );
    let mut s = Session::new();
    assert_eq!(load_settings(&mut s, true, "f9".to_string()), Some("f9".to_string()));
    hotkey_registered(&mut s, 0);
    assert!(!s.hotkey_ok);
    assert_eq!(
        s.last_error,
        "快捷键注册失败：可能与其他程序冲突或格式非法（宿主 register_hotkey 拒绝）"
    );
}

#[test]
fn going_back_to_a_combination_reuses_its_registration() {
    let mut s = Session::new();
    let mut acts = Vec::new();
    assert_eq!(load_settings(&mut s, true, "f8".to_string()), Some("f8".to_string()));
    hotkey_registered(&mut s, 1);
    for (combo, id) in [("f9", 2u64), ("f10", 3)] {
        assert_eq!(
            apply_settings(&mut s, true, combo.to_string(), &mut acts),
            Some(combo.to_string())
        );
        hotkey_registered(&mut s, id);
        hotkey_replanned(&s, &mut acts);
    }
    acts.clear();
    // Back to the first: the host is not asked again.
    assert_eq!(apply_settings(&mut s, true, "f8".to_string(), &mut acts), None);
    assert_eq!(words(&acts), vec!["log2 hotkey re-planned: [f8] (ok=true)", "config fc_status"]);
    assert_eq!((s.hotkey_id, s.host_hotkey_active), (1, true));
    assert_eq!(route(&s, "hotkey:1", b""), Command::Toggle);
    assert_eq!(route(&s, "hotkey:2", b""), Command::Nothing);
    assert_eq!(s.held.len(), 3);
}

#[test]
fn a_handle_of_zero_is_no_registration() {
    let mut s = Session::new();
    s.hotkey_text = "f8".to_string();
    s.held.push(Registration { combo: "f8".to_string(), id: 0 });
    assert_eq!(plan_hotkey(&mut s), Some("f8".to_string()));
    hotkey_registered(&mut s, 4);
    assert_eq!((s.hotkey_id, s.hotkey_ok), (4, true));
    assert_eq!(plan_hotkey(&mut s), None);
    assert_eq!(s.hotkey_id, 4);
}

#[test]
fn an_invalid_combination_silences_the_former_one() {
    let mut s = Session::new();
    let mut acts = Vec::new();
    load_settings(&mut s, true, "f8".to_string());
    hotkey_registered(&mut s, 1);
    assert_eq!(apply_config(&mut s, "true", "\"q\"", &mut acts), None);
    assert_eq!(words(&acts), vec!["log2 hotkey re-planned: [q] (ok=false)", "config fc_status"]);
    assert_eq!(
        s.last_error,
        "快捷键不可用：字母/数字主键必须搭配至少一个修饰键（ctrl/alt/shift/win）"
    );
    assert_eq!(route(&s, "hotkey:1", b""), Command::Nothing);
    // Planning again changes nothing.
    assert_eq!(plan_hotkey(&mut s), None);
    assert!(!s.hotkey_ok);
}

#[test]
fn unchanged_settings_ask_for_nothing() {
    let mut s = Session::new();
    let mut acts = Vec::new();
    load_settings(&mut s, true, "f8".to_string());
    hotkey_registered(&mut s, 1);
    assert_eq!(apply_config(&mut s, " false ", "\"f8\"", &mut acts), None);
    assert!(acts.is_empty());
    assert!(!s.notify_on);
}

#[test]
fn the_end_of_the_plugin_starts_afresh() {
    let mut s = running();
    s.notify_on = false;
    assert_eq!(apply_settings(&mut s, false, "f8".to_string(), &mut Vec::new()), Some("f8".to_string()));
    hotkey_registered(&mut s, 5);
    let mut acts = Vec::new();
    begin_deinit(&s, &mut acts);
    assert_eq!(words(&acts), vec!["stop", "mixing false"]);
    acts.clear();
    assert!(reap_worker(&mut s, ThreadEnd::Joined, &mut acts));
    end_deinit(&mut s, &mut acts);
    assert_eq!(words(&acts), vec!["mixing false", "clear 7"]);
    assert_eq!((s.phase, s.worker, s.interval_id, s.held.len()), (Phase::Idle, false, 0, 0));
    assert_eq!((s.hotkey_id, s.hotkey_ok, s.hotkey_text.as_str()), (0, false, ""));
    // The wish for notifications stays.
    assert!(!s.notify_on);
    // A second end changes nothing more.
    acts.clear();
    begin_deinit(&s, &mut acts);
    assert!(reap_worker(&mut s, ThreadEnd::Joined, &mut acts));
    end_deinit(&mut s, &mut acts);
    assert_eq!(words(&acts), vec!["mixing false"]);
}

#[test]
fn messages_are_routed() {
    let mut s = running();
    s.hotkey_id = 12;
    s.host_hotkey_active = true;
    assert_eq!(route(&s, "hotkey:12", b""), Command::Toggle);
    assert_eq!(route(&s, "hotkey:+12", b""), Command::Toggle);
    assert_eq!(route(&s, "hotkey:13", b""), Command::Nothing);
    assert_eq!(route(&s, "hotkey:", b""), Command::Nothing);
    assert_eq!(route(&s, "hotkey:12x", b""), Command::Nothing);
    assert_eq!(route(&s, "hotkey:99999999999999999999", b""), Command::Nothing);
    s.host_hotkey_active = false;
    assert_eq!(route(&s, "hotkey:12", b""), Command::Nothing);
    s.hotkey_id = 0;
    s.host_hotkey_active = true;
    assert_eq!(route(&s, "hotkey:0", b""), Command::Nothing);
    assert_eq!(route(&s, "ui:stop", b""), Command::Stop);
    assert_eq!(route(&s, "ui:apply", b""), Command::Apply);
    assert_eq!(route(&s, "ui:other", b""), Command::Nothing);
    assert_eq!(route(&s, "", b""), Command::Nothing);
    assert_eq!(route(&Session::new(), "ui:stop", b""), Command::Nothing);
}

#[test]
fn only_the_armed_watchdogs_ticks_count() {
    let s = running();
    let tick = |p: &[u8]| route(&s, "interval:tick", p);
    assert_eq!(tick(b"{\"interval\":7,\"payload\":\"fcwd\"}"), Command::Watchdog);
    assert_eq!(tick(b" {\"payload\":\"fcwd\",\"x\":[],\"interval\":7} "), Command::Watchdog);
    assert_eq!(tick(b"{\"interval\":8,\"payload\":\"fcwd\"}"), Command::Nothing);
    assert_eq!(tick(b"{\"interval\":7,\"payload\":\"other\"}"), Command::Nothing);
    assert_eq!(tick(b"{\"interval\":-7,\"payload\":\"fcwd\"}"), Command::Nothing);
    assert_eq!(tick(b"[7,\"fcwd\"]"), Command::Nothing);
    assert_eq!(tick(b"\xff"), Command::Nothing);
    assert_eq!(tick(b""), Command::Nothing);
    let fresh = Session::new();
    assert_eq!(
        route_tick(&fresh, "interval:tick", Some((0, "fcwd".to_string()))),
        Command::Nothing
    );
    assert_eq!((WATCHDOG_MS, WATCHDOG_PAYLOAD), (400, "fcwd"));
}

#[test]
fn ticks_are_read_from_json() {
    assert_eq!(
        parse_tick("{\"interval\":18446744073709551615,\"payload\":\"a\\u0062\"}"),
        Some((u64::MAX, "ab".to_string()))
    );
    assert_eq!(parse_tick(""), None);
    assert_eq!(parse_tick("{\"interval\":1}"), None);
    assert_eq!(parse_tick("{\"payload\":\"x\"}"), None);
    assert_eq!(parse_tick("{\"interval\":1.5,\"payload\":\"x\"}"), None);
    assert_eq!(parse_tick("7"), None);
}

#[test]
fn configuration_falls_back_to_its_default() {
    assert_eq!(config_string("\"f9\"", "d"), "f9");
    assert_eq!(config_string("\"a\\nb\"", "d"), "a\nb");
    assert_eq!(config_string("f9", "d"), "d");
    assert_eq!(config_string("", "d"), "d");
    assert!(config_bool("true", false));
    assert!(!config_bool("\n false\t", true));
    assert!(config_bool("1", true));
    assert!(!config_bool("", false));
}

#[test]
fn the_host_table_is_kept_while_the_plugin_lives() {
    let mut slot: Option<u32> = None;
    assert_eq!(with_host(&slot, |h: &u32| *h + 1), None);
    store_host(&mut slot, 4);
    assert_eq!(with_host(&slot, |h: &u32| *h + 1), Some(5));
    clear_host(&mut slot);
    assert_eq!(slot, None);
}

#[test]
fn host_answers_are_read() {
    assert_eq!(granted_id(mpl_result_t::MPL_OK, 6), 6);
    assert_eq!(granted_id(mpl_result_t::MPL_ERR_PERMISSION, 6), 0);
    assert_eq!(config_text(mpl_result_t::MPL_OK, b"true\0\0", 4), "true");
    assert_eq!(config_text(mpl_result_t::MPL_OK, b"true\0", 99), "true");
    assert_eq!(config_text(mpl_result_t::MPL_OK, b"a\xffb\0", 3), "a\u{fffd}b");
    assert_eq!(config_text(mpl_result_t::MPL_OK, b"", 3), "");
    assert_eq!(config_text(mpl_result_t::MPL_ERR_RUNTIME, b"true\0", 4), "");
    assert_eq!(mpl_result_t::MPL_OK.code(), 0);
    assert_eq!(mpl_result_t::MPL_ERR_NOT_IMPLEMENTED.code(), 1);
    assert_eq!(mpl_result_t::MPL_ERR_INVALID_ARG.code(), 2);
    assert_eq!(mpl_result_t::MPL_ERR_RUNTIME.code(), 3);
    assert_eq!(mpl_result_t::MPL_ERR_BUFFER_TOO_SMALL.code(), 4);
    assert_eq!(mpl_result_t::MPL_ERR_PERMISSION.code(), 5);
    assert_eq!((LOG_ERROR, LOG_WARN, LOG_INFO, LOG_DEBUG), (0, 1, 2, 3));
}
