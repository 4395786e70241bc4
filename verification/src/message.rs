//! Bus messages: presses of the hotkey, ticks of the watchdog, and the panel's
//! requests.
use crate::json::{json_object, parse_tick, tick_said};
use crate::session::{Phase, Session, SessionView, WATCHDOG_PAYLOAD};
use crate::text::{
    chars_of, is_word, lossy_text, parse_unsigned, payload_string, same, unsigned_value,
};
use vstd::prelude::*;

verus! {

/// What a bus message asks for.
#[derive(Clone, Copy, PartialEq, Eq, Structural, Debug)]
pub enum Command {
    /// A press of the hotkey.
    Toggle,
    /// A tick of the watchdog.
    Watchdog,
    /// Stop the session.
    Stop,
    /// Read the settings again.
    Apply,
    Nothing,
}

/// Whether a press counts: of the live registration only.
pub open spec fn press_counts(v: SessionView, handle: Seq<char>) -> bool {
    match unsigned_value(handle, u64::MAX as nat) {
        Some(id) => v.host_hotkey_active && id != 0 && id == v.hotkey_id,
        None => false,
    }
}

/// Whether a tick is the armed watchdog's.
pub open spec fn tick_counts(v: SessionView, tick: Option<(u64, Seq<char>)>) -> bool {
    match tick {
        Some((id, tag)) => v.interval_id != 0 && id == v.interval_id && tag == WATCHDOG_PAYLOAD@,
        None => false,
    }
}

/// What a tick's payload says.
pub open spec fn tick_in(payload: Seq<char>) -> Option<(u64, Seq<char>)> {
    match json_object(payload) {
        Some(object) => tick_said(object),
        None => None,
    }
}

/// Whether a topic is that of a hotkey press.
pub open spec fn is_press(topic: Seq<char>) -> bool {
    topic.len() >= 7 && topic.take(7) == "hotkey:"@
}

/// What a message asks for, where `tick` is what the payload of a tick says.
pub open spec fn command(
    v: SessionView,
    topic: Seq<char>,
    tick: Option<(u64, Seq<char>)>,
) -> Command {
    if is_press(topic) {
        if press_counts(v, topic.skip(7)) {
            Command::Toggle
        } else {
            Command::Nothing
        }
    } else if topic == "interval:tick"@ {
        if tick_counts(v, tick) {
            Command::Watchdog
        } else {
            Command::Nothing
        }
    } else if topic == "ui:stop"@ {
        if v.phase == Phase::Starting || v.phase == Phase::Running {
            Command::Stop
        } else {
            Command::Nothing
        }
    } else if topic == "ui:apply"@ {
        Command::Apply
    } else {
        Command::Nothing
    }
}

/// The handle that a press names; nothing where the topic is no press.
fn pressed_handle(topic: &str) -> (r: Option<u64>)
    ensures
        r is Some <==> is_press(topic@),
        r matches Some(id) ==> id == match unsigned_value(topic@.skip(7), u64::MAX as nat) {
            Some(n) => n as u64,
            None => 0,
        },
{
    let chars = chars_of(topic);
    if chars.len() < 7 {
        return None;
    }
    let head: &[char] = vstd::slice::slice_subrange(chars.as_slice(), 0, 7);
    assert(head@ == topic@.take(7));
    if !is_word(head, "hotkey:") {
        return None;
    }
    let tail: &[char] = vstd::slice::slice_subrange(chars.as_slice(), 7, chars.len());
    assert(tail@ == topic@.skip(7));
    match parse_unsigned(tail, u64::MAX) {
        Some(id) => Some(id),
        None => Some(0),
    }
}

/// What a message asks for, where `tick` is what the payload of a tick says.
pub fn route_tick(s: &Session, topic: &str, tick: Option<(u64, String)>) -> (r: Command)
    ensures
        r == command(
            s@,
            topic@,
            match tick {
                Some((id, tag)) => Some((id, tag@)),
                None => None,
            },
        ),
{
    match pressed_handle(topic) {
        Some(id) => {
            return if s.host_hotkey_active && id != 0 && id == s.hotkey_id {
                Command::Toggle
            } else {
                Command::Nothing
            };
        },
        None => {},
    }
    if same(topic, "interval:tick") {
        match tick {
            Some((id, tag)) => if s.interval_id != 0 && id == s.interval_id && same(
                tag.as_str(),
                WATCHDOG_PAYLOAD,
            ) {
                Command::Watchdog
            } else {
                Command::Nothing
            },
            None => Command::Nothing,
        }
    } else if same(topic, "ui:stop") {
        if s.phase == Phase::Starting || s.phase == Phase::Running {
            Command::Stop
        } else {
            Command::Nothing
        }
    } else if same(topic, "ui:apply") {
        Command::Apply
    } else {
        Command::Nothing
    }
}

/// What a message asks for.
pub fn route(s: &Session, topic: &str, payload: &[u8]) -> (r: Command)
    ensures
        r == command(s@, topic@, tick_in(lossy_text(payload@))),
        topic@ != "interval:tick"@ ==> r == command(s@, topic@, None),
{
    let tick: Option<(u64, String)> = if same(topic, "interval:tick") {
        let text = payload_string(payload);
        parse_tick(text.as_str())
    } else {
        None
    };
    route_tick(s, topic, tick)
}

} // verus!
