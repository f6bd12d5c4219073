//! The background health sweep: which backend to probe next, at which
//! address, and what to log of the outcome. Outcomes are reported only; the
//! pool is read and never changed.

use crate::events::{severity_of, LogEvent, LogRecord, Severity};
use crate::pool::{addresses, ServerPool};
use vstd::prelude::*;

verus! {

/// The seconds between two sweeps when nothing else is configured.
pub const DEFAULT_INTERVAL_SECS: u64 = 20;

/// The seconds after which a connection attempt that has not succeeded counts
/// as failed.
pub const PROBE_TIMEOUT_SECS: u64 = 5;

/// The scheme marker that a backend address carries and a socket address
/// does not: seven characters.
pub open spec fn scheme_prefix() -> Seq<char> {
    "http://"@
}

/// `text` with every occurrence of the scheme marker left out, found from
/// left to right.
pub open spec fn without_scheme(text: Seq<char>) -> Seq<char>
    decreases text.len(),
{
    if text.len() < 7 {
        text
    } else if text.take(7) == scheme_prefix() {
        without_scheme(text.skip(7))
    } else {
        seq![text[0]] + without_scheme(text.skip(1))
    }
}

/// Whether the scheme marker stands in `text` at the character `at`.
fn scheme_at(text: &str, len: usize, at: usize) -> (found: bool)
    requires
        len == text@.len(),
        at <= len,
    ensures
        found <==> (text@.skip(at as int).len() >= 7 && text@.skip(at as int).take(7)
            == scheme_prefix()),
{
    proof {
        reveal_strlit("http://");
    }
    if len - at < 7 {
        return false;
    }
    let found = text.get_char(at) == 'h'
        && text.get_char(at + 1) == 't'
        && text.get_char(at + 2) == 't'
        && text.get_char(at + 3) == 'p'
        && text.get_char(at + 4) == ':'
        && text.get_char(at + 5) == '/'
        && text.get_char(at + 6) == '/';
    proof {
        let window = text@.skip(at as int).take(7);
        if found {
            assert(window =~= scheme_prefix());
        } else {
            assert(window[0] == text@[at as int]);
            assert(window[1] == text@[at + 1]);
            assert(window[2] == text@[at + 2]);
            assert(window[3] == text@[at + 3]);
            assert(window[4] == text@[at + 4]);
            assert(window[5] == text@[at + 5]);
            assert(window[6] == text@[at + 6]);
        }
    }
    found
}

/// The socket address at which a backend is probed: its configured address
/// without the scheme marker, so `http://127.0.0.1:8081` is probed at
/// `127.0.0.1:8081`.
pub fn probe_address(backend: &str) -> (address: String)
    ensures
        address@ == without_scheme(backend@),
{
    let len: usize = backend.unicode_len();
    let mut address = String::new();
    let mut at: usize = 0;
    assert(address@ + without_scheme(backend@.skip(0)) =~= without_scheme(backend@)) by {
        assert(backend@.skip(0) =~= backend@);
    }
    while at < len
        invariant
            len == backend@.len(),
            at <= len,
            address@ + without_scheme(backend@.skip(at as int)) == without_scheme(backend@),
        decreases len - at,
    {
        let ghost rest = backend@.skip(at as int);
        if scheme_at(backend, len, at) {
            assert(rest.skip(7) =~= backend@.skip(at + 7));
            at += 7;
        } else {
            let ghost before = address@;
            address.append(backend.substring_char(at, at + 1));
            assert(rest.skip(1) =~= backend@.skip(at + 1));
            assert(backend@.subrange(at as int, at + 1) =~= seq![rest[0]]);
            assert(address@ + without_scheme(rest.skip(1)) =~= before + (seq![rest[0]]
                + without_scheme(rest.skip(1))));
            at += 1;
        }
    }
    assert(address@ + Seq::<char>::empty() =~= address@);
    address
}

/// What one connection attempt found.
#[derive(Clone, Debug, PartialEq, Eq)]
pub enum ProbeOutcome {
    /// The connection was established.
    Reachable,
    /// The connection was refused, timed out, or the name did not resolve.
    Unreachable { reason: String },
}

/// The state of a backend as its latest probe saw it. It is logged and
/// nothing else: a backend that is down stays in the rotation.
#[derive(Clone, Copy, Debug, PartialEq, Eq, Structural)]
pub enum HealthStatus {
    Up,
    Down,
}

/// A single probe decides the status.
pub open spec fn status_of(outcome: ProbeOutcome) -> HealthStatus {
    match outcome {
        ProbeOutcome::Reachable => HealthStatus::Up,
        ProbeOutcome::Unreachable { .. } => HealthStatus::Down,
    }
}

/// The log line owed for the probe of `backend` that ended in `outcome`.
pub open spec fn probe_record(backend: Seq<char>, outcome: ProbeOutcome) -> LogRecord {
    match outcome {
        ProbeOutcome::Reachable => LogRecord::ServerUp { backend },
        ProbeOutcome::Unreachable { reason } => LogRecord::ServerDown { backend, reason: reason@ },
    }
}

/// A probe is only ever logged: a backend that was reached is reported up at
/// information level, one that was not is reported down, with the reason, as
/// a warning; the line names the backend that was probed.
pub proof fn lemma_outcome_is_logged(backend: Seq<char>, outcome: ProbeOutcome)
    ensures
        status_of(outcome) == HealthStatus::Up ==> probe_record(backend, outcome)
            == (LogRecord::ServerUp { backend }),
        status_of(outcome) == HealthStatus::Down ==> probe_record(backend, outcome)
            == (LogRecord::ServerDown { backend, reason: outcome->reason@ }),
        severity_of(probe_record(backend, outcome)) == if status_of(outcome) == HealthStatus::Up {
            Severity::Info
        } else {
            Severity::Warn
        },
{
}

impl ProbeOutcome {
    /// The status that this outcome stands for.
    pub fn status(&self) -> (status: HealthStatus)
        ensures
            status == status_of(*self),
    {
        match self {
            ProbeOutcome::Reachable => HealthStatus::Up,
            ProbeOutcome::Unreachable { .. } => HealthStatus::Down,
        }
    }
}

/// What the embedding program does next for the health sweep.
#[derive(Clone, Debug, PartialEq, Eq)]
pub enum ProbeStep {
    /// Try to connect to `address` for at most `timeout_secs` seconds and
    /// report the outcome for `backend`.
    Connect { backend: String, address: String, timeout_secs: u64 },
    /// The sweep is over: wait for the next tick of the timer.
    Wait { seconds: u64 },
}

/// A step of the sweep, with its texts as sequences of characters.
pub enum ProbePlan {
    Connect { backend: Seq<char>, address: Seq<char>, timeout_secs: u64 },
    Wait { seconds: u64 },
}

impl View for ProbeStep {
    type V = ProbePlan;

    open spec fn view(&self) -> ProbePlan {
        match self {
            ProbeStep::Connect { backend, address, timeout_secs } => ProbePlan::Connect {
                backend: backend@,
                address: address@,
                timeout_secs: *timeout_secs,
            },
            ProbeStep::Wait { seconds } => ProbePlan::Wait { seconds: *seconds },
        }
    }
}

/// The step owed when `position` backends of `targets` have been probed:
/// the next backend at its socket address, within the bound on a connection
/// attempt, or the wait once all are done.
pub open spec fn step_at(targets: Seq<Seq<char>>, position: int, interval: u64) -> ProbePlan {
    if 0 <= position < targets.len() {
        ProbePlan::Connect {
            backend: targets[position],
            address: without_scheme(targets[position]),
            timeout_secs: PROBE_TIMEOUT_SECS,
        }
    } else {
        ProbePlan::Wait { seconds: interval }
    }
}

/// What [`HealthProbe::record`] hands back: the line to log, if a probe was
/// outstanding, and the next step.
#[derive(Clone, Debug, PartialEq, Eq)]
pub struct ProbeReport {
    pub event: Option<LogEvent>,
    pub next: ProbeStep,
}

/// The health sweep as a state machine. A tick copies the pool's addresses;
/// each reported outcome yields one log line and moves on to the next
/// backend of that copy; after the last one the probe waits for the next tick.
pub struct HealthProbe {
    interval_secs: u64,
    targets: Vec<String>,
    position: usize,
}

impl HealthProbe {
    /// The seconds between two sweeps.
    pub closed spec fn interval(&self) -> u64 {
        self.interval_secs
    }

    /// The backends of the sweep under way, as copied at its tick.
    pub closed spec fn targets(&self) -> Seq<Seq<char>> {
        addresses(self.targets@)
    }

    /// How many backends of the sweep have been reported.
    pub closed spec fn position(&self) -> nat {
        self.position as nat
    }

    /// Whether a probe is outstanding.
    pub open spec fn sweeping(&self) -> bool {
        self.position() < self.targets().len()
    }

    /// A probe that waits for its first tick.
    pub fn new(interval_secs: u64) -> (probe: HealthProbe)
        ensures
            probe.interval() == interval_secs,
            probe.targets().len() == 0,
            probe.position() == 0,
    {
        HealthProbe { interval_secs, targets: Vec::new(), position: 0 }
    }

    /// The seconds between two sweeps.
    pub fn interval_secs(&self) -> (seconds: u64)
        ensures
            seconds == self.interval(),
    {
        self.interval_secs
    }

    /// The step owed in the current state.
    fn step(&self) -> (step: ProbeStep)
        ensures
            step@ == step_at(self.targets(), self.position() as int, self.interval()),
    {
        if self.position < self.targets.len() {
            let backend = self.targets[self.position].clone();
            let address = probe_address(backend.as_str());
            ProbeStep::Connect { backend, address, timeout_secs: PROBE_TIMEOUT_SECS }
        } else {
            ProbeStep::Wait { seconds: self.interval_secs }
        }
    }

    /// The timer fired: starts a sweep over the pool as it is now, and gives
    /// up one that is still under way. The pool is only read, and only here,
    /// so it need not be held while probing.
    pub fn begin_tick(&mut self, pool: &ServerPool) -> (step: ProbeStep)
        ensures
            final(self).interval() == old(self).interval(),
            final(self).targets() == pool@,
            final(self).position() == 0,
            step@ == step_at(pool@, 0, old(self).interval()),
    {
        self.targets = pool.snapshot();
        self.position = 0;
        self.step()
    }

    /// The outstanding probe ended in `outcome`: yields the line to log for
    /// its backend and the next step. The sweep keeps every backend, whatever
    /// the outcome. Without an outstanding probe nothing is logged and
    /// nothing changes.
    pub fn record(&mut self, outcome: ProbeOutcome) -> (report: ProbeReport)
        ensures
            final(self).interval() == old(self).interval(),
            final(self).targets() == old(self).targets(),
            old(self).sweeping() ==> final(self).position() == old(self).position() + 1,
            old(self).sweeping() ==> (report.event matches Some(event) && event@ == probe_record(
                old(self).targets()[old(self).position() as int],
                outcome,
            )),
            !old(self).sweeping() ==> final(self).position() == old(self).position(),
            !old(self).sweeping() ==> report.event is None,
            report.next@ == step_at(
                final(self).targets(),
                final(self).position() as int,
                final(self).interval(),
            ),
    {
        let event = if self.position < self.targets.len() {
            let backend = self.targets[self.position].clone();
            self.position += 1;
            Some(
                match outcome {
                    ProbeOutcome::Reachable => LogEvent::ServerUp { backend },
                    ProbeOutcome::Unreachable { reason } => LogEvent::ServerDown { backend, reason },
                },
            )
        } else {
            None
        };
        ProbeReport { event, next: self.step() }
    }
}

impl Default for HealthProbe {
    /// A probe with the default interval of 20 seconds.
    fn default() -> (probe: HealthProbe)
        ensures
            probe.interval() == DEFAULT_INTERVAL_SECS,
            probe.targets().len() == 0,
            probe.position() == 0,
    {
        HealthProbe::new(DEFAULT_INTERVAL_SECS)
    }
}

} // verus!
