//! A bounded in-memory log: the last [`MAX_DEBUG_LOGS`] messages, each
//! prefixed with its level.  Writing the messages anywhere is the caller's
//! business; this type only keeps the ring.

use vstd::prelude::*;

verus! {

use vstd::string::StringExecFns;

/// How many messages the ring keeps before the oldest is dropped.
pub const MAX_DEBUG_LOGS: usize = 100;

/// The kept log lines, oldest first.
#[derive(Debug)]
pub struct Logger {
    pub debug_logs: Vec<String>,
}

/// The lines as character sequences.
pub open spec fn logs_view(logs: Seq<String>) -> Seq<Seq<char>> {
    logs.map(|i: int, s: String| s@)
}

/// What one append does to the ring: the oldest line falls out when the ring
/// is full, and the new line goes to the end.
pub open spec fn ring_append(logs: Seq<Seq<char>>, entry: Seq<char>) -> Seq<Seq<char>> {
    if logs.len() >= MAX_DEBUG_LOGS {
        logs.drop_first().push(entry)
    } else {
        logs.push(entry)
    }
}

/// The ring never outgrows its bound.
pub open spec fn wf(logs: Seq<Seq<char>>) -> bool {
    logs.len() <= MAX_DEBUG_LOGS
}

impl Logger {
    /// An empty ring.
    pub fn new() -> (r: Logger)
        ensures
            r.debug_logs@.len() == 0,
    {
        Logger { debug_logs: Vec::new() }
    }

    /// Append one already-prefixed line, dropping the oldest when full.
    fn add_debug_log(&mut self, message: String)
        ensures
            logs_view(final(self).debug_logs@) == ring_append(
                logs_view(old(self).debug_logs@),
                message@,
            ),
            wf(logs_view(old(self).debug_logs@)) ==> wf(logs_view(final(self).debug_logs@)),
    {
        if self.debug_logs.len() >= MAX_DEBUG_LOGS {
            let _oldest = self.debug_logs.remove(0);
            self.debug_logs.push(message);
            proof {
                assert(logs_view(final(self).debug_logs@) =~= ring_append(
                    logs_view(old(self).debug_logs@),
                    message@,
                ));
            }
        } else {
            self.debug_logs.push(message);
            proof {
                assert(logs_view(final(self).debug_logs@) =~= ring_append(
                    logs_view(old(self).debug_logs@),
                    message@,
                ));
            }
        }
    }

    /// Prefix `message` with the level tag and append it to the ring.
    fn add_tagged(&mut self, tag: &str, message: &str)
        ensures
            logs_view(final(self).debug_logs@) == ring_append(
                logs_view(old(self).debug_logs@),
                tag@ + message@,
            ),
            wf(logs_view(old(self).debug_logs@)) ==> wf(logs_view(final(self).debug_logs@)),
    {
        let mut entry = String::from_str(tag);
        entry.append(message);
        self.add_debug_log(entry);
    }

    /// Record a debug-level message.
    pub fn debug(&mut self, message: &str)
        ensures
            logs_view(final(self).debug_logs@) == ring_append(
                logs_view(old(self).debug_logs@),
                "DEBUG: "@ + message@,
            ),
            wf(logs_view(old(self).debug_logs@)) ==> wf(logs_view(final(self).debug_logs@)),
    {
        self.add_tagged("DEBUG: ", message);
    }

    /// Record an info-level message.
    pub fn info(&mut self, message: &str)
        ensures
            logs_view(final(self).debug_logs@) == ring_append(
                logs_view(old(self).debug_logs@),
                "INFO: "@ + message@,
            ),
            wf(logs_view(old(self).debug_logs@)) ==> wf(logs_view(final(self).debug_logs@)),
    {
        self.add_tagged("INFO: ", message);
    }

    /// Record a warning.
    pub fn warn(&mut self, message: &str)
        ensures
            logs_view(final(self).debug_logs@) == ring_append(
                logs_view(old(self).debug_logs@),
                "WARN: "@ + message@,
            ),
            wf(logs_view(old(self).debug_logs@)) ==> wf(logs_view(final(self).debug_logs@)),
    {
        self.add_tagged("WARN: ", message);
    }

    /// Record an error.
    pub fn error(&mut self, message: &str)
        ensures
            logs_view(final(self).debug_logs@) == ring_append(
                logs_view(old(self).debug_logs@),
                "ERROR: "@ + message@,
            ),
            wf(logs_view(old(self).debug_logs@)) ==> wf(logs_view(final(self).debug_logs@)),
    {
        self.add_tagged("ERROR: ", message);
    }

    /// Record a debug-level message.
    pub fn debug_static(&mut self, message: &str)
        ensures
            logs_view(final(self).debug_logs@) == ring_append(
                logs_view(old(self).debug_logs@),
                "DEBUG: "@ + message@,
            ),
            wf(logs_view(old(self).debug_logs@)) ==> wf(logs_view(final(self).debug_logs@)),
    {
        self.add_tagged("DEBUG: ", message);
    }

    /// Record an info-level message.
    pub fn info_static(&mut self, message: &str)
        ensures
            logs_view(final(self).debug_logs@) == ring_append(
                logs_view(old(self).debug_logs@),
                "INFO: "@ + message@,
            ),
            wf(logs_view(old(self).debug_logs@)) ==> wf(logs_view(final(self).debug_logs@)),
    {
        self.add_tagged("INFO: ", message);
    }

    /// Record a warning.
    pub fn warn_static(&mut self, message: &str)
        ensures
            logs_view(final(self).debug_logs@) == ring_append(
                logs_view(old(self).debug_logs@),
                "WARN: "@ + message@,
            ),
            wf(logs_view(old(self).debug_logs@)) ==> wf(logs_view(final(self).debug_logs@)),
    {
        self.add_tagged("WARN: ", message);
    }

    /// Record an error.
    pub fn error_static(&mut self, message: &str)
        ensures
            logs_view(final(self).debug_logs@) == ring_append(
                logs_view(old(self).debug_logs@),
                "ERROR: "@ + message@,
            ),
            wf(logs_view(old(self).debug_logs@)) ==> wf(logs_view(final(self).debug_logs@)),
    {
        self.add_tagged("ERROR: ", message);
    }

    /// A copy of the kept lines, oldest first.
    pub fn get_debug_logs(&self) -> (r: Vec<String>)
        ensures
            logs_view(r@) == logs_view(self.debug_logs@),
    {
        let n = self.debug_logs.len();
        let mut r: Vec<String> = Vec::new();
        let mut i: usize = 0;
        while i < n
            invariant
                n == self.debug_logs@.len(),
                i <= n,
                r@.len() == i,
                forall|k: int| 0 <= k < i ==> r@[k]@ == self.debug_logs@[k]@,
            decreases n - i,
        {
            r.push(self.debug_logs[i].clone());
            i += 1;
        }
        proof {
            assert(logs_view(r@) =~= logs_view(self.debug_logs@));
        }
        r
    }
}

/// Record a debug-level message on the given ring.
pub fn debug(logger: &mut Logger, message: &str)
    ensures
        logs_view(final(logger).debug_logs@) == ring_append(
            logs_view(old(logger).debug_logs@),
            "DEBUG: "@ + message@,
        ),
        wf(logs_view(old(logger).debug_logs@)) ==> wf(logs_view(final(logger).debug_logs@)),
{
    logger.debug_static(message);
}

/// Record an info-level message on the given ring.
pub fn info(logger: &mut Logger, message: &str)
    ensures
        logs_view(final(logger).debug_logs@) == ring_append(
            logs_view(old(logger).debug_logs@),
            "INFO: "@ + message@,
        ),
        wf(logs_view(old(logger).debug_logs@)) ==> wf(logs_view(final(logger).debug_logs@)),
{
    logger.info_static(message);
}

/// Record a warning on the given ring.
pub fn warn(logger: &mut Logger, message: &str)
    ensures
        logs_view(final(logger).debug_logs@) == ring_append(
            logs_view(old(logger).debug_logs@),
            "WARN: "@ + message@,
        ),
        wf(logs_view(old(logger).debug_logs@)) ==> wf(logs_view(final(logger).debug_logs@)),
{
    logger.warn_static(message);
}

/// Record an error on the given ring.
pub fn error(logger: &mut Logger, message: &str)
    ensures
        logs_view(final(logger).debug_logs@) == ring_append(
            logs_view(old(logger).debug_logs@),
            "ERROR: "@ + message@,
        ),
        wf(logs_view(old(logger).debug_logs@)) ==> wf(logs_view(final(logger).debug_logs@)),
{
    logger.error_static(message);
}

} // verus!
