//! Platforms without a capture backend.
use vstd::prelude::*;

verus! {

/// No foreground process is known.
pub fn foreground_pid() -> (r: Option<u32>)
    ensures
        r == None::<u32>,
{
    None
}

/// No process has this id.
pub fn current_pid() -> (r: u32)
    ensures
        r == 0,
{
    0
}

/// No process has a name.
pub fn process_name_by_pid(_pid: u32) -> (r: String)
    ensures
        r@ == Seq::<char>::empty(),
{
    String::new()
}

/// Why no worker can be spawned.
pub fn spawn_error() -> (r: String)
    ensures
        r@
            == "process capture is implemented for Windows / Linux (PipeWire) / macOS 14.4+ only"@,
{
    "process capture is implemented for Windows / Linux (PipeWire) / macOS 14.4+ only".to_string()
}

} // verus!
