//! Opt-in field diagnostics: when the trace is on, and what its lines say.
use crate::text::{decimal, file_name, file_name_of, hex_digits, push_decimal, push_hex32, same};
use vstd::prelude::*;
use vstd::string::StringExecFns;

verus! {

/// Whether the trace variable switches the trace on: set, not empty, not `0`.
pub fn enabled(value: Option<&str>) -> (r: bool)
    ensures
        r == (value matches Some(v) && v@.len() > 0 && v@ != "0"@),
{
    match value {
        Some(v) => !v.is_empty() && !same(v, "0"),
        None => false,
    }
}

/// A trace line: the wall clock in milliseconds, the thread, the message.
pub fn trace_line(wall_ms: u128, thread: &str, msg: &str) -> (r: String)
    ensures
        r@ == "[fc "@ + decimal(wall_ms as nat) + " tid="@ + thread@ + "] "@ + msg@,
{
    let mut line = "[fc ".to_string();
    push_decimal(&mut line, wall_ms);
    line.append(" tid=");
    line.append(thread);
    line.append("] ");
    line.append(msg);
    line
}

/// The directory of the trace file: the first of the two variables that is
/// set.
pub fn trace_dir(temp: Option<String>, tmp: Option<String>) -> (r: Option<String>)
    ensures
        r == if temp is Some {
            temp
        } else {
            tmp
        },
{
    match temp {
        Some(dir) => Some(dir),
        None => tmp,
    }
}

/// The module that a fault lies in, by the file that it was loaded from.
pub open spec fn module_name(path: Option<&str>) -> Seq<char> {
    match path {
        Some(p) => file_name_of(p@, true),
        None => "<unknown>"@,
    }
}

/// What the crash reporter says of a fault: its code, its address, and the
/// module that it lies in, where that is known.
pub fn fault_report(code: u32, address: &str, path: Option<&str>) -> (r: String)
    ensures
        r@ == "!!! UNHANDLED EXCEPTION code="@ + seq!['0', 'x'] + hex_digits(code as nat, 8)
            + " address="@ + address@ + " module="@ + module_name(path)
            + " — last steps above bracket the fault"@,
{
    let mut out = "!!! UNHANDLED EXCEPTION code=".to_string();
    push_hex32(&mut out, code);
    out.append(" address=");
    out.append(address);
    out.append(" module=");
    match path {
        Some(p) => {
            let name = file_name(p, true);
            out.append(name.as_str());
        },
        None => out.append("<unknown>"),
    }
    out.append(" — last steps above bracket the fault");
    out
}

/// Whether the crash reporter is still to be registered; `handle` is that of
/// its registration, zero where there is none.
pub fn install(handle: isize) -> (r: bool)
    ensures
        r == (handle == 0),
{
    handle == 0
}

/// Takes the crash reporter's registration back: its handle, where there is
/// one to be removed.
pub fn uninstall(handle: &mut isize) -> (r: Option<isize>)
    ensures
        *final(handle) == 0,
        r == if *old(handle) == 0 {
            None::<isize>
        } else {
            Some(*old(handle))
        },
{
    let h: isize = *handle;
    *handle = 0;
    if h != 0 {
        Some(h)
    } else {
        None
    }
}

} // verus!
