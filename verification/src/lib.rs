//! Focus capture: mixes the sound of the application in the foreground into a
//! microphone stream.
//!
//! A press of a global hotkey starts a session: a worker captures what one
//! process plays, folds it to mono at the host chain's rate, and writes it into
//! a ring; the host's audio thread mixes the ring into its blocks with a short
//! fade. The next press stops it.
//!
//! This crate is everything that decides and computes. It calls no system and
//! no host: what was observed goes in as plain values, and what is to be done
//! comes out as plain values. Arithmetic on samples is handed in, so that the
//! order of the operations is what is stated and proved.
//!
//! - [`hotkey`]: hotkey combinations; [`combo_laws`] says what every one comes to.
//! - [`session`], [`settings`], [`message`]: the bus thread's state machine;
//!   [`session_laws`] says what holds of every session, [`step_laws`] what each
//!   step does to it.
//! - [`ring`], [`process`]: the sample ring and the real-time path;
//!   [`ring_laws`] says what holds of every ring.
//! - [`resample`], [`downmix`], [`fold`]: the worker's signal path;
//!   [`signal_laws`] says which samples make up which result.
//! - [`capture`]: what the backends share; [`loopback`] (Windows),
//!   [`stream`], [`pod`], [`registry`] (Linux), [`tap`] (macOS) and
//!   [`backend_stub`] are their decisions; [`backend_laws`] says what holds of
//!   them.
//! - [`abi`], [`json`], [`text`], [`trace`]: the host's calls, its JSON, and
//!   text; [`text_laws`] says what holds of every text.
use vstd::prelude::*;

pub mod abi;
pub mod backend_laws;
pub mod backend_stub;
pub mod capture;
pub mod combo_laws;
pub mod downmix;
pub mod fold;
pub mod hotkey;
pub mod json;
pub mod loopback;
pub mod message;
pub mod pod;
pub mod process;
pub mod registry;
pub mod resample;
pub mod ring;
pub mod ring_laws;
pub mod session;
pub mod session_laws;
pub mod settings;
pub mod signal_laws;
pub mod step_laws;
pub mod stream;
pub mod tap;
pub mod text;
pub mod text_laws;
pub mod trace;

verus! {

/// The host chain's fixed sample rate.
pub const TARGET_RATE: u32 = 48_000;

/// The plugin's version.
pub const PLUGIN_VERSION: &'static str = "1.0.0";

} // verus!
