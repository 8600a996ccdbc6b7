//! Verified core of a data acquisition backend for neutron detectors:
//! the event model, the event expression language, detector stream
//! decoders, event recipes and histogram bookkeeping.

pub mod bytes;
pub mod client;
pub mod command;
pub mod config;
pub mod error;
pub mod event;
pub mod text;
pub mod expr;
pub mod format;
pub mod histo;
pub mod json;
pub mod input;
pub mod output;
pub mod shm;
pub mod pipeline;
pub mod postproc;
pub mod recipe;
pub mod sorter;

use vstd::prelude::*;

verus! {

/// Logging switches to set: debug output, and trace output where the
/// build has it (`None`: left as it is).
#[derive(Debug, Clone, Copy, PartialEq, Eq, Structural)]
pub struct DebugFlags {
    pub debug: bool,
    pub trace: Option<bool>,
}

/// Trace output was asked for but is not built in.
#[derive(Debug, Clone, Copy, PartialEq, Eq, Structural)]
pub struct TraceUnavailable;

/// The logging switches for the requested `debug` and `trace` settings in
/// a build that has trace output or not.  Debug output is always set;
/// trace output is set where it is built in, and asking for it elsewhere is
/// an error.
pub fn set_debug_params(debug: bool, trace: bool, trace_available: bool) -> (r: (DebugFlags, Result<(), TraceUnavailable>))
    ensures
        r.0.debug == debug,
        r.0.trace == (if trace_available { Some(trace) } else { None }),
        r.1 is Err <==> (!trace_available && trace),
{
    let flags = DebugFlags { debug, trace: if trace_available { Some(trace) } else { None } };
    if !trace_available && trace {
        (flags, Err(TraceUnavailable))
    } else {
        (flags, Ok(()))
    }
}

} // verus!
