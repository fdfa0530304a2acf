//! Output-mode state and the error payload of machine-readable reports.
//! Rendering to an output stream happens outside the library; the pieces
//! here decide and carry what is rendered.

use vstd::prelude::*;

verus! {

use vstd::string::StringExecFns;
use crate::errors::PeekabooError;

/// Whether reports are rendered as JSON.  Held explicitly and passed where
/// needed, instead of living in process-wide state.
#[derive(Clone, Copy, Debug, PartialEq, Eq, Structural)]
pub struct JsonOutputMode {
    pub enabled: bool,
}

impl JsonOutputMode {
    /// Plain-text output until switched.
    pub fn new() -> (r: JsonOutputMode)
        ensures
            !r.enabled,
    {
        JsonOutputMode { enabled: false }
    }

    /// Switch JSON output on or off.
    pub fn set_global(&mut self, enabled: bool)
        ensures
            final(self).enabled == enabled,
    {
        self.enabled = enabled;
    }

    /// Whether JSON output is on.
    pub fn is_enabled(&self) -> (r: bool)
        ensures
            r == self.enabled,
    {
        self.enabled
    }
}

/// The error part of a machine-readable report: rendered message, stable
/// code, optional detail.
#[derive(Debug)]
pub struct ErrorInfo {
    pub message: String,
    pub code: String,
    pub details: Option<String>,
}

impl ErrorInfo {
    /// The report payload for one failure: its message and code, no detail.
    pub fn from_error(error: &PeekabooError) -> (r: ErrorInfo)
        ensures
            r.message@ == error.message_spec(),
            r.code@ == error.error_code_spec(),
            r.details is None,
    {
        let code_text = error.error_code();
        ErrorInfo { message: error.message(), code: String::from_str(code_text), details: None }
    }
}

/// The collected log lines and the mode flag, as one value: what the
/// report-rendering layer needs from a run.
#[derive(Debug)]
pub struct Logger {
    pub json_mode: bool,
    pub debug_logs: Vec<String>,
}

impl Logger {
    /// No lines yet, plain-text mode.
    pub fn new() -> (r: Logger)
        ensures
            !r.json_mode,
            r.debug_logs@.len() == 0,
    {
        Logger { json_mode: false, debug_logs: Vec::new() }
    }

    /// Set the output mode, keeping the collected lines.
    pub fn init(&mut self, json_mode: bool)
        ensures
            final(self).json_mode == json_mode,
            final(self).debug_logs@ == old(self).debug_logs@,
    {
        self.json_mode = json_mode;
    }

    /// Record a debug message; every recorded message is kept verbatim.
    pub fn debug(&mut self, message: &str)
        ensures
            final(self).json_mode == old(self).json_mode,
            crate::logger::logs_view(final(self).debug_logs@) == crate::logger::logs_view(
                old(self).debug_logs@,
            ).push(message@),
    {
        let entry = String::from_str(message);
        self.debug_logs.push(entry);
        proof {
            assert(crate::logger::logs_view(final(self).debug_logs@) =~= crate::logger::logs_view(
                old(self).debug_logs@,
            ).push(message@));
        }
    }

    /// An info message leaves the collected lines alone.
    pub fn info(&self, message: &str) {
        let _ = message;
    }

    /// A warning leaves the collected lines alone.
    pub fn warn(&self, message: &str) {
        let _ = message;
    }

    /// An error message leaves the collected lines alone.
    pub fn error(&self, message: &str) {
        let _ = message;
    }

    /// A copy of the recorded lines, oldest first.
    pub fn get_debug_logs(&self) -> (r: Vec<String>)
        ensures
            crate::logger::logs_view(r@) == crate::logger::logs_view(self.debug_logs@),
    {
        let n = self.debug_logs.len();
        let mut r: Vec<String> = Vec::new();
        let mut i: usize = 0;
        while i < n
            invariant
                n == self.debug_logs@.len(),
                i <= n,
                r@.len() == i,
                forall|k: int| 0 <= k < i ==> r@[k]@ == self.debug_logs@[k]@,
            decreases n - i,
        {
            r.push(self.debug_logs[i].clone());
            i += 1;
        }
        proof {
            assert(crate::logger::logs_view(r@) =~= crate::logger::logs_view(self.debug_logs@));
        }
        r
    }

    /// Forget every recorded line.
    pub fn clear_debug_logs(&mut self)
        ensures
            final(self).json_mode == old(self).json_mode,
            final(self).debug_logs@.len() == 0,
    {
        self.debug_logs.clear();
    }
}

} // verus!
