//! The diagnostic sink: leveled events the scheduling core emits.
//!
//! Events are advisory only — nothing in scheduling reads them back. A sink
//! collects (severity, message) events; `log_str` formats one event as a
//! single line of text.
use vstd::prelude::*;
use vstd::string::{StrSliceExecFns, StringExecFns};

use crate::queue::DeliverOutcome;

verus! {

/// Whether a piece of text is the debug rendering of a thread id:
/// `ThreadId(` up front, a closing parenthesis at the end.
pub open spec fn thread_id_shape(s: Seq<char>) -> bool {
    &&& s.len() >= 10
    &&& s.subrange(0, 9) == "ThreadId("@
    &&& s[s.len() - 1] == ')'
}

/// The compact form of a thread-id text: the rendering `ThreadId(<n>)` is
/// split into the head `Th` and the tail `Id(<n>)`; text of any other shape
/// is handed back whole, with an empty tail.
pub fn concise_threadid(s: &str) -> (r: (String, String))
    ensures
        thread_id_shape(s@) ==> r.0@ == s@.subrange(0, 2) && r.1@ == s@.subrange(
            6,
            s@.len() as int,
        ),
        !thread_id_shape(s@) ==> r.0@ == s@ && r.1@.len() == 0,
{
    let n = s.unicode_len();
    if n >= 10 {
        let prefix = s.substring_char(0, 9).to_owned();
        let expected = "ThreadId(".to_owned();
        if prefix == expected && s.get_char(n - 1) == ')' {
            let head = s.substring_char(0, 2).to_owned();
            let tail = s.substring_char(6, n).to_owned();
            return (head, tail);
        }
    }
    (s.to_owned(), String::new())
}

/// The severity of a diagnostic event.
#[derive(Clone, Copy, Debug, PartialEq, Eq, Structural)]
pub enum Level {
    Error,
    Warn,
    Info,
    Debug,
    Trace,
}

impl Level {
    /// The printable name of the severity.
    pub open spec fn name_spec(self) -> Seq<char> {
        match self {
            Level::Error => "error"@,
            Level::Warn => "warn"@,
            Level::Info => "info"@,
            Level::Debug => "debug"@,
            Level::Trace => "trace"@,
        }
    }

    pub fn name(&self) -> (r: &'static str)
        ensures
            r@ == self.name_spec(),
    {
        match self {
            Level::Error => "error",
            Level::Warn => "warn",
            Level::Info => "info",
            Level::Debug => "debug",
            Level::Trace => "trace",
        }
    }
}

/// One line of diagnostic text: the severity in brackets, then the message.
pub open spec fn log_line_spec(level: Level, msg: Seq<char>) -> Seq<char> {
    "["@ + level.name_spec() + "] "@ + msg
}

/// Formats one diagnostic line from a severity and a message.
pub fn log_str(level: Level, msg: &str) -> (r: String)
    ensures
        r@ == log_line_spec(level, msg@),
{
    let mut s = String::from_str("[");
    s.append(level.name());
    s.append("] ");
    s.append(msg);
    s
}

/// The severity a delivery outcome is reported at: a failed delivery is an
/// error, a successful one is ordinary scheduling chatter.
pub fn outcome_level(oc: &DeliverOutcome) -> (r: Level)
    ensures
        r == (if oc is Failed {
            Level::Error
        } else {
            Level::Debug
        }),
{
    match oc {
        DeliverOutcome::Failed(_) => Level::Error,
        _ => Level::Debug,
    }
}

/// A diagnostic event: a severity and a message.
#[derive(Debug)]
pub struct Event {
    pub level: Level,
    pub msg: String,
}

/// A diagnostic sink that collects leveled events in the order they were
/// emitted. The core only ever appends; it never alters scheduling because
/// of what the sink holds.
#[derive(Debug)]
pub struct Sink {
    pub events: Vec<Event>,
}

impl Sink {
    /// An empty sink.
    pub fn new() -> (r: Sink)
        ensures
            r.events@.len() == 0,
    {
        Sink { events: Vec::new() }
    }

    /// Appends one event; everything already collected is kept.
    pub fn emit(&mut self, level: Level, msg: String)
        ensures
            final(self).events@ == old(self).events@.push((Event { level, msg })),
    {
        self.events.push(Event { level, msg });
    }

    pub fn error(&mut self, msg: String)
        ensures
            final(self).events@ == old(self).events@.push((Event { level: Level::Error, msg })),
    {
        self.emit(Level::Error, msg);
    }

    pub fn warn(&mut self, msg: String)
        ensures
            final(self).events@ == old(self).events@.push((Event { level: Level::Warn, msg })),
    {
        self.emit(Level::Warn, msg);
    }

    pub fn info(&mut self, msg: String)
        ensures
            final(self).events@ == old(self).events@.push((Event { level: Level::Info, msg })),
    {
        self.emit(Level::Info, msg);
    }

    pub fn debug(&mut self, msg: String)
        ensures
            final(self).events@ == old(self).events@.push((Event { level: Level::Debug, msg })),
    {
        self.emit(Level::Debug, msg);
    }

    pub fn trace(&mut self, msg: String)
        ensures
            final(self).events@ == old(self).events@.push((Event { level: Level::Trace, msg })),
    {
        self.emit(Level::Trace, msg);
    }

    /// How many events have been collected.
    pub fn len(&self) -> (r: usize)
        ensures
            r == self.events@.len(),
    {
        self.events.len()
    }
}

} // verus!
