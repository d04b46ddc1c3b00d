use vstd::prelude::*;

pub mod format;
pub mod log_file;
pub mod log_stdout;
pub mod model;
pub mod order;
pub mod paint;
pub mod severity;

use crate::format::basic_line;
use crate::format::format_basic;
use crate::format::plain_line;
use crate::log_file::LogFile;
use crate::log_stdout::LogStdOut;
use crate::paint::colored_line;
use crate::severity::accepts;
use crate::severity::rank;
use crate::severity::spec_accepts;
use crate::severity::Severity;

verus! {

/// A structured log event: the severity the caller chose and the message
/// text. It lives for one dispatch; only its rendered form persists.
pub struct Event {
    pub severity: Severity,
    pub message: String,
}

impl Event {
    pub fn new(severity: Severity, message: String) -> (r: Self)
        ensures
            r.severity == severity,
            r.message == message,
    {
        Event { severity, message }
    }
}

/// A sink that writes basic `SEVERITY - message` lines to an output stream
/// the host supplies. Its filter is the fixed Info cutoff; the stream itself
/// stays with the host, which performs the writes.
pub struct Logger {}

impl Logger {
    pub fn new() -> (r: Self) {
        Logger {}
    }

    /// Whether this sink accepts an event of severity `sev`: the cutoff is
    /// fixed at Info.
    pub fn enabled(&self, sev: Severity) -> (r: bool)
        ensures
            r == spec_accepts(sev, Severity::Info),
    {
        accepts(sev, Severity::Info)
    }

    /// The line this sink writes for `event`, or None when the event is less
    /// urgent than Info.
    pub fn render(&self, event: &Event) -> (r: Option<String>)
        ensures
            (r is Some) == spec_accepts(event.severity, Severity::Info),
            r matches Some(line) ==> line@ == basic_line(event.severity, event.message@),
    {
        if self.enabled(event.severity) {
            Some(format_basic(event.severity, event.message.as_str()))
        } else {
            None
        }
    }

    /// Writes go straight through; there is nothing to flush.
    pub fn flush(&self) {
    }
}

/// One registered sink: the set is closed, so dispatch is a tagged choice.
pub enum Sink {
    File(LogFile),
    Terminal(LogStdOut),
    Stream(Logger),
}

impl Sink {
    /// The minimum severity this sink was configured with.
    pub open spec fn spec_minimum(self) -> Severity {
        match self {
            Sink::File(f) => f.level,
            Sink::Terminal(t) => t.level,
            Sink::Stream(_) => Severity::Info,
        }
    }

    /// The minimum severity this sink was configured with.
    pub fn minimum(&self) -> (r: Severity)
        ensures
            r == self.spec_minimum(),
    {
        match self {
            Sink::File(f) => f.level,
            Sink::Terminal(t) => t.level,
            Sink::Stream(_) => Severity::Info,
        }
    }

    /// Whether this sink's own filter accepts an event of severity `sev`.
    pub fn enabled(&self, sev: Severity) -> (r: bool)
        ensures
            r == spec_accepts(sev, self.spec_minimum()),
    {
        match self {
            Sink::File(f) => f.enabled(sev),
            Sink::Terminal(t) => t.enabled(sev),
            Sink::Stream(l) => l.enabled(sev),
        }
    }

    /// The line this sink writes for `event`, or None when its filter
    /// rejects the event. Each variant keeps its own format.
    pub fn render(&self, event: &Event, elapsed_ms: u64, elapsed_text: &str) -> (r: Option<
        String,
    >)
        ensures
            (r is Some) == spec_accepts(event.severity, self.spec_minimum()),
            r matches Some(line) ==> spec_rendered(
                *self,
                event.severity,
                event.message@,
                elapsed_ms as nat,
                elapsed_text@,
                line@,
            ),
    {
        match self {
            Sink::File(f) => f.render(event, elapsed_ms),
            Sink::Terminal(t) => t.render(event, elapsed_text),
            Sink::Stream(l) => l.render(event),
        }
    }
}

/// What the line a sink writes for an event looks like: the plain file
/// format, the colorized terminal format, or the basic stream format.
pub open spec fn spec_rendered(
    s: Sink,
    sev: Severity,
    msg: Seq<char>,
    elapsed_ms: nat,
    elapsed_text: Seq<char>,
    line: Seq<char>,
) -> bool {
    match s {
        Sink::File(_) => line == plain_line(elapsed_ms, sev, msg),
        Sink::Terminal(_) => colored_line(elapsed_text, sev, msg, line),
        Sink::Stream(_) => line == basic_line(sev, msg),
    }
}

/// The sink multiplexer: an ordered list of sinks, fixed after construction,
/// that fans one event out to every sink whose own filter accepts it.
pub struct MultiLogger {
    pub sinks: Vec<Sink>,
}

impl MultiLogger {
    pub fn new(sinks: Vec<Sink>) -> (r: Self)
        ensures
            r.sinks@ == sinks@,
    {
        MultiLogger { sinks }
    }

    /// The multiplexer's fast-path gate: true iff at least one contained
    /// sink accepts the severity. It never replaces the per-sink check.
    pub fn enabled(&self, sev: Severity) -> (r: bool)
        ensures
            r == exists|i: int|
                0 <= i < self.sinks@.len() && spec_accepts(sev, self.sinks@[i].spec_minimum()),
    {
        let mut i: usize = 0;
        while i < self.sinks.len()
            invariant
                i <= self.sinks@.len(),
                forall|j: int| 0 <= j < i ==> !spec_accepts(sev, self.sinks@[j].spec_minimum()),
            decreases self.sinks@.len() - i,
        {
            if self.sinks[i].enabled(sev) {
                return true;
            }
            i = i + 1;
        }
        false
    }

    /// The line each sink writes for `event`, in sink order: None exactly
    /// where a sink's own filter rejects the event, so every written line
    /// was accepted by its sink's filter first.
    pub fn render_all(&self, event: &Event, elapsed_ms: u64, elapsed_text: &str) -> (r: Vec<
        Option<String>,
    >)
        ensures
            r@.len() == self.sinks@.len(),
            forall|i: int|
                0 <= i < r@.len() ==> ((r@[i] is Some) == spec_accepts(
                    event.severity,
                    self.sinks@[i].spec_minimum(),
                )),
            forall|i: int|
                0 <= i < r@.len() ==> (#[trigger] r@[i] matches Some(line) ==> spec_rendered(
                    self.sinks@[i],
                    event.severity,
                    event.message@,
                    elapsed_ms as nat,
                    elapsed_text@,
                    line@,
                )),
    {
        let mut out: Vec<Option<String>> = Vec::new();
        let mut i: usize = 0;
        while i < self.sinks.len()
            invariant
                i <= self.sinks@.len(),
                out@.len() == i,
                forall|j: int|
                    0 <= j < i ==> ((out@[j] is Some) == spec_accepts(
                        event.severity,
                        self.sinks@[j].spec_minimum(),
                    )),
                forall|j: int|
                    0 <= j < i ==> (#[trigger] out@[j] matches Some(line) ==> spec_rendered(
                        self.sinks@[j],
                        event.severity,
                        event.message@,
                        elapsed_ms as nat,
                        elapsed_text@,
                        line@,
                    )),
            decreases self.sinks@.len() - i,
        {
            let line = self.sinks[i].render(event, elapsed_ms, elapsed_text);
            out.push(line);
            i = i + 1;
        }
        out
    }

    /// The most permissive severity any contained sink accepts: the global
    /// cutoff the host installs beside the multiplexer. With no sinks only
    /// the most restrictive cutoff remains.
    pub fn max_severity(&self) -> (r: Severity)
        ensures
            forall|i: int| 0 <= i < self.sinks@.len() ==> rank(self.sinks@[i].spec_minimum()) <= rank(r),
            self.sinks@.len() == 0 ==> r == Severity::Error,
            self.sinks@.len() > 0 ==> exists|i: int|
                0 <= i < self.sinks@.len() && r == self.sinks@[i].spec_minimum(),
    {
        let mut r = Severity::Error;
        let mut i: usize = 0;
        while i < self.sinks.len()
            invariant
                i <= self.sinks@.len(),
                forall|j: int| 0 <= j < i ==> rank(self.sinks@[j].spec_minimum()) <= rank(r),
                i == 0 ==> r == Severity::Error,
                i > 0 ==> exists|j: int| 0 <= j < i && r == self.sinks@[j].spec_minimum(),
            decreases self.sinks@.len() - i,
        {
            let m = self.sinks[i].minimum();
            if r.rank_u8() < m.rank_u8() {
                r = m;
            }
            i = i + 1;
        }
        r
    }
}

/// The configuration error of the dispatch entry point.
#[derive(Clone, Copy, Debug, PartialEq, Eq, Structural)]
pub enum InitError {
    AlreadyInitialized,
}

/// The host's one-shot holder for the process-wide logging backend. The host
/// keeps exactly one of these for the process's lifetime and installs into
/// it once.
pub struct DispatchState {
    pub installed: Option<MultiLogger>,
}

impl DispatchState {
    /// A holder with nothing installed yet.
    pub fn new() -> (r: Self)
        ensures
            r.installed is None,
    {
        DispatchState { installed: None }
    }
}

/// How one installation call relates the holder before it, the sinks handed
/// in, the holder after it and the call's result: a first call installs a
/// multiplexer over exactly those sinks; any later call fails with
/// AlreadyInitialized and changes nothing.
pub open spec fn init_rel(
    pre: DispatchState,
    sinks: Seq<Sink>,
    post: DispatchState,
    r: Result<(), InitError>,
) -> bool {
    if pre.installed is None {
        &&& r is Ok
        &&& post.installed matches Some(m) && m.sinks@ == sinks
    } else {
        &&& r == Result::<(), InitError>::Err(InitError::AlreadyInitialized)
        &&& post == pre
    }
}

/// The dispatch entry point: installs the multiplexer over `sinks` into the
/// process-wide holder exactly once. A second call fails with
/// AlreadyInitialized and leaves the first installation intact.
pub fn init(state: &mut DispatchState, sinks: Vec<Sink>) -> (r: Result<(), InitError>)
    ensures
        init_rel(*old(state), sinks@, *final(state), r),
{
    match state.installed {
        Option::None => {
            state.installed = Some(MultiLogger::new(sinks));
            Ok(())
        },
        Option::Some(_) => Err(InitError::AlreadyInitialized),
    }
}

/// Law: installing twice in one process yields the configuration error on
/// the second call and leaves the first installation intact.
pub proof fn lemma_second_install_rejected(
    s0: DispatchState,
    sinks1: Seq<Sink>,
    s1: DispatchState,
    r1: Result<(), InitError>,
    sinks2: Seq<Sink>,
    s2: DispatchState,
    r2: Result<(), InitError>,
)
    requires
        s0.installed is None,
        init_rel(s0, sinks1, s1, r1),
        init_rel(s1, sinks2, s2, r2),
    ensures
        r1 is Ok,
        s1.installed matches Some(m) && m.sinks@ == sinks1,
        r2 == Result::<(), InitError>::Err(InitError::AlreadyInitialized),
        s2 == s1,
{
}

} // verus!
