//! The host's side of the plugin: result codes, the callback table's slot, and
//! the calls that the bus thread asks for.
//!
//! The session never calls the host itself. It appends what is to be done to a
//! list, and the bus thread carries the list out in order; the worker and the
//! audio thread have no access to it.
#![allow(non_camel_case_types)]
use crate::text::{lossy_text, payload_string};
use vstd::prelude::*;

verus! {

/// The plugin ABI's version.
pub const MPL_ABI_VERSION: u32 = 1;

/// The plugin API's version.
pub const MPL_API_VERSION: u32 = 1;

/// What every plugin entry point returns.
#[derive(Debug, Clone, Copy, PartialEq, Eq, Structural)]
pub enum mpl_result_t {
    MPL_OK,
    MPL_ERR_NOT_IMPLEMENTED,
    MPL_ERR_INVALID_ARG,
    MPL_ERR_RUNTIME,
    MPL_ERR_BUFFER_TOO_SMALL,
    MPL_ERR_PERMISSION,
}

/// The number of a result code in the ABI.
pub open spec fn code_of(r: mpl_result_t) -> i32 {
    match r {
        mpl_result_t::MPL_OK => 0,
        mpl_result_t::MPL_ERR_NOT_IMPLEMENTED => 1,
        mpl_result_t::MPL_ERR_INVALID_ARG => 2,
        mpl_result_t::MPL_ERR_RUNTIME => 3,
        mpl_result_t::MPL_ERR_BUFFER_TOO_SMALL => 4,
        mpl_result_t::MPL_ERR_PERMISSION => 5,
    }
}

impl mpl_result_t {
    /// The number in the ABI.
    pub fn code(self) -> (r: i32)
        ensures
            r == code_of(self),
    {
        match self {
            mpl_result_t::MPL_OK => 0,
            mpl_result_t::MPL_ERR_NOT_IMPLEMENTED => 1,
            mpl_result_t::MPL_ERR_INVALID_ARG => 2,
            mpl_result_t::MPL_ERR_RUNTIME => 3,
            mpl_result_t::MPL_ERR_BUFFER_TOO_SMALL => 4,
            mpl_result_t::MPL_ERR_PERMISSION => 5,
        }
    }
}

/// Log levels, as the ABI numbers them.
pub const LOG_ERROR: i32 = 0;

pub const LOG_WARN: i32 = 1;

pub const LOG_INFO: i32 = 2;

pub const LOG_DEBUG: i32 = 3;

// ────────────────────────────── the host table ─────────────────────────────
/// Keeps a copy of the host's callback table.
pub fn store_host<H>(slot: &mut Option<H>, host: H)
    ensures
        *final(slot) == Some(host),
{
    *slot = Some(host);
}

/// Forgets the host's callback table.
pub fn clear_host<H>(slot: &mut Option<H>)
    ensures
        *final(slot) == None::<H>,
{
    *slot = None;
}

/// Runs `f` with the host's callback table; nothing before it is stored and
/// after it is forgotten.
pub fn with_host<H, R, F: FnOnce(&H) -> R>(slot: &Option<H>, f: F) -> (r: Option<R>)
    requires
        *slot matches Some(h) ==> call_requires(f, (&h,)),
    ensures
        r is Some <==> *slot is Some,
        r matches Some(x) ==> call_ensures(f, (&(*slot)->0,), x),
{
    match slot {
        Some(h) => Some(f(h)),
        None => None,
    }
}

/// The handle that the host gave; zero where it refused.
pub fn granted_id(code: mpl_result_t, id: u64) -> (r: u64)
    ensures
        r == if code == mpl_result_t::MPL_OK {
            id
        } else {
            0
        },
{
    if code == mpl_result_t::MPL_OK {
        id
    } else {
        0
    }
}

/// How many bytes of a buffer the host's value takes: what it claims, but
/// never the whole buffer, whose last byte is the terminator's.
pub open spec fn value_len(capacity: int, size: int) -> int {
    let most = if capacity > 0 {
        capacity - 1
    } else {
        0
    };
    if size < most {
        size
    } else {
        most
    }
}

/// The configuration text that the host left in `buf`; empty where it refused.
pub fn config_text(code: mpl_result_t, buf: &[u8], size: u32) -> (r: String)
    ensures
        code != mpl_result_t::MPL_OK ==> r@ == Seq::<char>::empty(),
        code == mpl_result_t::MPL_OK ==> r@ == lossy_text(
            buf@.take(value_len(buf@.len() as int, size as int)),
        ),
        code == mpl_result_t::MPL_OK && vstd::utf8::valid_utf8(
            buf@.take(value_len(buf@.len() as int, size as int)),
        ) ==> r@ == vstd::utf8::decode_utf8(
            buf@.take(value_len(buf@.len() as int, size as int)),
        ),
{
    if code != mpl_result_t::MPL_OK {
        return String::new();
    }
    let most: usize = buf.len().saturating_sub(1);
    let len: usize = if (size as usize) < most {
        size as usize
    } else {
        most
    };
    let value: &[u8] = vstd::slice::slice_subrange(buf, 0, len);
    assert(value@ == buf@.take(len as int));
    payload_string(value)
}

// ────────────────────────────── requested acts ─────────────────────────────
/// Something that the bus thread is to do.
pub enum Act {
    /// Log a line at a level.
    Log(i32, String),
    /// Raise a system notification: title and body.
    Notify(String, String),
    /// Store a configuration value: key and JSON text.
    SetConfig(String, String),
    /// Give a panel an icon: panel and icon.
    SetPanelIcon(String, String),
    /// Stop a timer.
    ClearInterval(u64),
    /// Raise the worker's stop flag.
    RaiseStop,
    /// Store the mixing flag.
    Mixing(bool),
}

/// Something that the bus thread is to do, as a value.
#[verifier::ext_equal]
pub enum ActView {
    Log(i32, Seq<char>),
    Notify(Seq<char>, Seq<char>),
    SetConfig(Seq<char>, Seq<char>),
    SetPanelIcon(Seq<char>, Seq<char>),
    ClearInterval(u64),
    RaiseStop,
    Mixing(bool),
}

impl View for Act {
    type V = ActView;

    open spec fn view(&self) -> ActView {
        match self {
            Act::Log(level, text) => ActView::Log(*level, text@),
            Act::Notify(title, body) => ActView::Notify(title@, body@),
            Act::SetConfig(key, value) => ActView::SetConfig(key@, value@),
            Act::SetPanelIcon(panel, icon) => ActView::SetPanelIcon(panel@, icon@),
            Act::ClearInterval(id) => ActView::ClearInterval(*id),
            Act::RaiseStop => ActView::RaiseStop,
            Act::Mixing(on) => ActView::Mixing(*on),
        }
    }
}

/// A list of acts, as values.
pub open spec fn acts_of(acts: Seq<Act>) -> Seq<ActView> {
    acts.map_values(|a: Act| a@)
}

/// Appends an act.
pub fn ask(acts: &mut Vec<Act>, act: Act)
    ensures
        acts_of(final(acts)@) == acts_of(old(acts)@).push(act@),
{
    acts.push(act);
    assert(acts_of(acts@) =~= acts_of(old(acts)@).push(act@));
}

/// Asks for a log line.
pub fn log(acts: &mut Vec<Act>, level: i32, msg: &str)
    ensures
        acts_of(final(acts)@) == acts_of(old(acts)@).push(ActView::Log(level, msg@)),
{
    ask(acts, Act::Log(level, msg.to_string()));
}

pub fn log_info(acts: &mut Vec<Act>, msg: &str)
    ensures
        acts_of(final(acts)@) == acts_of(old(acts)@).push(ActView::Log(LOG_INFO, msg@)),
{
    log(acts, LOG_INFO, msg);
}

pub fn log_warn(acts: &mut Vec<Act>, msg: &str)
    ensures
        acts_of(final(acts)@) == acts_of(old(acts)@).push(ActView::Log(LOG_WARN, msg@)),
{
    log(acts, LOG_WARN, msg);
}

pub fn log_error(acts: &mut Vec<Act>, msg: &str)
    ensures
        acts_of(final(acts)@) == acts_of(old(acts)@).push(ActView::Log(LOG_ERROR, msg@)),
{
    log(acts, LOG_ERROR, msg);
}

/// A notification, where the user wants them.
pub open spec fn notice(on: bool, title: Seq<char>, body: Seq<char>) -> Seq<ActView> {
    if on {
        seq![ActView::Notify(title, body)]
    } else {
        Seq::empty()
    }
}

/// Asks for a notification; skipped where the user has them switched off.
pub fn notify(acts: &mut Vec<Act>, on: bool, title: &str, body: &str)
    ensures
        acts_of(final(acts)@) == acts_of(old(acts)@) + notice(on, title@, body@),
{
    if on {
        ask(acts, Act::Notify(title.to_string(), body.to_string()));
    }
}

/// Asks to store a configuration value.
pub fn set_config(acts: &mut Vec<Act>, key: &str, json_value: &str)
    ensures
        acts_of(final(acts)@) == acts_of(old(acts)@).push(ActView::SetConfig(key@, json_value@)),
{
    ask(acts, Act::SetConfig(key.to_string(), json_value.to_string()));
}

/// Asks for a panel icon.
pub fn set_panel_icon(acts: &mut Vec<Act>, panel_id: &str, icon: &str)
    ensures
        acts_of(final(acts)@) == acts_of(old(acts)@).push(ActView::SetPanelIcon(panel_id@, icon@)),
{
    ask(acts, Act::SetPanelIcon(panel_id.to_string(), icon.to_string()));
}

/// Asks to stop a timer.
pub fn clear_interval(acts: &mut Vec<Act>, id: u64)
    ensures
        acts_of(final(acts)@) == acts_of(old(acts)@).push(ActView::ClearInterval(id)),
{
    ask(acts, Act::ClearInterval(id));
}

} // verus!
