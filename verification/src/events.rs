//! What the balancer reports to its log, and how loudly.

use crate::client::ClientKey;
use vstd::prelude::*;

verus! {

/// The level at which an event is logged.
#[derive(Clone, Copy, Debug, PartialEq, Eq, Structural)]
pub enum Severity {
    Info,
    Warn,
}

/// One line for the log. The embedding program chooses the wording.
#[derive(Clone, Debug, PartialEq, Eq)]
pub enum LogEvent {
    /// A request was accepted from `caller`.
    RequestReceived { caller: ClientKey },
    /// An accepted request goes to `backend`.
    RequestSent { backend: String },
    /// A request of `caller` was refused: its quota is used up.
    RateLimited { caller: ClientKey },
    /// A health probe reached `backend`.
    ServerUp { backend: String },
    /// A health probe did not reach `backend`.
    ServerDown { backend: String, reason: String },
}

/// What a log event says, with its texts as sequences of characters.
pub enum LogRecord {
    RequestReceived { caller: ClientKey },
    RequestSent { backend: Seq<char> },
    RateLimited { caller: ClientKey },
    ServerUp { backend: Seq<char> },
    ServerDown { backend: Seq<char>, reason: Seq<char> },
}

/// Refusals and unreachable backends are warnings; everything else is
/// information.
pub open spec fn severity_of(record: LogRecord) -> Severity {
    match record {
        LogRecord::RateLimited { .. } => Severity::Warn,
        LogRecord::ServerDown { .. } => Severity::Warn,
        _ => Severity::Info,
    }
}

impl View for LogEvent {
    type V = LogRecord;

    open spec fn view(&self) -> LogRecord {
        match self {
            LogEvent::RequestReceived { caller } => LogRecord::RequestReceived { caller: *caller },
            LogEvent::RequestSent { backend } => LogRecord::RequestSent { backend: backend@ },
            LogEvent::RateLimited { caller } => LogRecord::RateLimited { caller: *caller },
            LogEvent::ServerUp { backend } => LogRecord::ServerUp { backend: backend@ },
            LogEvent::ServerDown { backend, reason } => LogRecord::ServerDown {
                backend: backend@,
                reason: reason@,
            },
        }
    }
}

impl LogEvent {
    /// The level at which this event is logged.
    pub fn severity(&self) -> (level: Severity)
        ensures
            level == severity_of(self@),
    {
        match self {
            LogEvent::RateLimited { .. } => Severity::Warn,
            LogEvent::ServerDown { .. } => Severity::Warn,
            _ => Severity::Info,
        }
    }
}

} // verus!
