use vstd::prelude::*;

use crate::paint::colored_line;
use crate::paint::format_colored;
use crate::severity::accepts;
use crate::severity::spec_accepts;
use crate::severity::Severity;
use crate::Event;

verus! {

/// The terminal sink: formats accepted events as colorized lines for the
/// process's standard output stream. The host owns the stream and performs
/// the serialized writes and flushes.
pub struct LogStdOut {
    pub level: Severity,
}

impl LogStdOut {
    /// A terminal sink that accepts events at least as urgent as `level`.
    pub fn new(level: Severity) -> (r: Self)
        ensures
            r.level == level,
    {
        LogStdOut { level }
    }

    /// Whether this sink's filter accepts an event of severity `sev`.
    pub fn enabled(&self, sev: Severity) -> (r: bool)
        ensures
            r == spec_accepts(sev, self.level),
    {
        accepts(sev, self.level)
    }

    /// The line this sink writes to the terminal for `event`, or None when
    /// its filter rejects the event: the colorized format, with the
    /// host-rendered elapsed-time text painted cyan and the severity token
    /// painted by the fixed table.
    pub fn render(&self, event: &Event, elapsed_text: &str) -> (r: Option<String>)
        ensures
            (r is Some) == spec_accepts(event.severity, self.level),
            r matches Some(line) ==> colored_line(
                elapsed_text@,
                event.severity,
                event.message@,
                line@,
            ),
    {
        if self.enabled(event.severity) {
            Some(format_colored(elapsed_text, event.severity, event.message.as_str()))
        } else {
            None
        }
    }
}

} // verus!
