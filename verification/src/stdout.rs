//! The standard-output sink.

use vstd::prelude::*;

use crate::log::{Log, LogFormat};

verus! {

/// The sink for the process's standard output. It renders a record as the
/// line to print; printing it is left to the caller.
#[derive(Clone, Copy, Debug, PartialEq, Eq, Structural)]
pub struct StdoutLogger {}

impl StdoutLogger {
    /// The sink. It holds no state.
    pub fn new() -> (r: StdoutLogger) {
        StdoutLogger {}
    }

    /// The line that the record puts on standard output.
    pub fn log(&self, log: &Log, format: &LogFormat) -> (line: String)
        requires
            log@.has_message(),
        ensures
            line@ == log@.render(*format),
    {
        log.render(format)
    }
}

} // verus!
