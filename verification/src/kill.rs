//! The kill controller: the per-process termination escalation and the
//! at-most-one-in-flight guard.
//!
//! The controller first requests a graceful termination signal. A delivery
//! failure does not abort the attempt: the process may already be gone, so
//! the controller waits the fixed grace period and re-checks liveness
//! either way. A process still alive is sent a forced signal, and that
//! escalation is recorded; only a forced signal that cannot be delivered
//! leaves the outcome unknown. The operation never raises: it always ends
//! in a classified outcome. Signal delivery, sleeping and liveness checks
//! are platform work performed by the embedding program, which feeds each
//! result back as an event.

use vstd::prelude::*;

verus! {

/// The grace period, in milliseconds, between the graceful signal and the
/// liveness re-check.
pub const GRACE_PERIOD_MS: u64 = 500;

/// The classified result of one termination attempt.
#[derive(Debug, Clone, Copy, PartialEq, Eq, Structural)]
pub enum KillOutcome {
    /// The process is gone; `escalated` records whether the forced signal
    /// was needed.
    Terminated { escalated: bool },
    /// A termination signal could not be delivered and the process was
    /// still alive: nothing more is known.
    Unknown,
}

/// The per-process escalation states.
#[derive(Debug, Clone, Copy, PartialEq, Eq, Structural)]
pub enum KillState {
    /// The attempt has not begun.
    Running,
    /// The graceful signal was requested (delivered or not).
    SignalSent,
    /// The grace period has elapsed.
    WaitingGrace,
    /// The liveness re-check found the process alive.
    StillAlive,
    /// The liveness re-check found the process gone.
    Gone,
    /// The forced signal was delivered.
    Escalated,
    /// Terminal: the process is gone.
    Terminated { escalated: bool },
    /// Terminal: a signal could not be delivered to a live process.
    Unknown,
}

/// The platform results that drive the escalation.
#[derive(Debug, Clone, Copy, PartialEq, Eq, Structural)]
pub enum KillEvent {
    /// The graceful signal was requested; the flag reports delivery.
    GracefulSent(bool),
    /// The grace period elapsed.
    GraceElapsed,
    /// Liveness was re-checked; the flag reports whether the process is
    /// still alive.
    LivenessChecked(bool),
    /// The forced signal was requested; the flag reports delivery.
    ForcedSent(bool),
    /// The outcome was recorded.
    OutcomeRecorded,
}

/// What the driver must do next in a state.
#[derive(Debug, Clone, Copy, PartialEq, Eq, Structural)]
pub enum KillAction {
    /// Request the graceful termination signal.
    SendGraceful,
    /// Sleep for the grace period.
    WaitGrace,
    /// Re-check liveness.
    CheckAlive,
    /// Request the forced termination signal.
    SendForced,
    /// Record the outcome reached.
    RecordOutcome,
    /// Nothing: the attempt is over.
    Done(KillOutcome),
}

/// Whether a state is terminal.
pub open spec fn is_terminal(s: KillState) -> bool {
    s is Terminated || s is Unknown
}

/// Whether an event is the one the state awaits.
pub open spec fn event_fits(s: KillState, e: KillEvent) -> bool {
    match s {
        KillState::Running => e is GracefulSent,
        KillState::SignalSent => e is GraceElapsed,
        KillState::WaitingGrace => e is LivenessChecked,
        KillState::StillAlive => e is ForcedSent,
        KillState::Gone => e is OutcomeRecorded,
        KillState::Escalated => e is OutcomeRecorded,
        KillState::Terminated { .. } => false,
        KillState::Unknown => false,
    }
}

/// The transition table: the state after `e` arrives in `s`. A graceful
/// delivery failure still proceeds to the wait; only a failed forced
/// signal gives `Unknown`.
pub open spec fn spec_kill_step(s: KillState, e: KillEvent) -> KillState {
    match (s, e) {
        (KillState::Running, KillEvent::GracefulSent(_)) => KillState::SignalSent,
        (KillState::SignalSent, KillEvent::GraceElapsed) => KillState::WaitingGrace,
        (KillState::WaitingGrace, KillEvent::LivenessChecked(alive)) => if alive {
            KillState::StillAlive
        } else {
            KillState::Gone
        },
        (KillState::StillAlive, KillEvent::ForcedSent(delivered)) => if delivered {
            KillState::Escalated
        } else {
            KillState::Unknown
        },
        (KillState::Gone, KillEvent::OutcomeRecorded) => KillState::Terminated {
            escalated: false,
        },
        (KillState::Escalated, KillEvent::OutcomeRecorded) => KillState::Terminated {
            escalated: true,
        },
        _ => s,
    }
}

/// How many fitting events a state can still consume: a strict upper bound
/// on the steps to a terminal state.
pub open spec fn kill_measure(s: KillState) -> nat {
    match s {
        KillState::Running => 5,
        KillState::SignalSent => 4,
        KillState::WaitingGrace => 3,
        KillState::StillAlive => 2,
        KillState::Gone => 1,
        KillState::Escalated => 1,
        KillState::Terminated { .. } => 0,
        KillState::Unknown => 0,
    }
}

/// Advances the escalation by one platform result.
pub fn kill_step(s: KillState, e: KillEvent) -> (r: KillState)
    requires
        event_fits(s, e),
    ensures
        r == spec_kill_step(s, e),
        kill_measure(r) < kill_measure(s),
{
    match (s, e) {
        (KillState::Running, KillEvent::GracefulSent(_)) => KillState::SignalSent,
        (KillState::SignalSent, KillEvent::GraceElapsed) => KillState::WaitingGrace,
        (KillState::WaitingGrace, KillEvent::LivenessChecked(alive)) => if alive {
            KillState::StillAlive
        } else {
            KillState::Gone
        },
        (KillState::StillAlive, KillEvent::ForcedSent(delivered)) => if delivered {
            KillState::Escalated
        } else {
            KillState::Unknown
        },
        (KillState::Gone, KillEvent::OutcomeRecorded) => KillState::Terminated {
            escalated: false,
        },
        (KillState::Escalated, KillEvent::OutcomeRecorded) => KillState::Terminated {
            escalated: true,
        },
        _ => s,
    }
}

/// What the driver must do next in `s`.
pub fn next_action(s: KillState) -> (r: KillAction)
    ensures
        r == (match s {
            KillState::Running => KillAction::SendGraceful,
            KillState::SignalSent => KillAction::WaitGrace,
            KillState::WaitingGrace => KillAction::CheckAlive,
            KillState::StillAlive => KillAction::SendForced,
            KillState::Gone => KillAction::RecordOutcome,
            KillState::Escalated => KillAction::RecordOutcome,
            KillState::Terminated { escalated } => KillAction::Done(
                KillOutcome::Terminated { escalated },
            ),
            KillState::Unknown => KillAction::Done(KillOutcome::Unknown),
        }),
        r is Done <==> is_terminal(s),
{
    match s {
        KillState::Running => KillAction::SendGraceful,
        KillState::SignalSent => KillAction::WaitGrace,
        KillState::WaitingGrace => KillAction::CheckAlive,
        KillState::StillAlive => KillAction::SendForced,
        KillState::Gone => KillAction::RecordOutcome,
        KillState::Escalated => KillAction::RecordOutcome,
        KillState::Terminated { escalated } => KillAction::Done(
            KillOutcome::Terminated { escalated },
        ),
        KillState::Unknown => KillAction::Done(KillOutcome::Unknown),
    }
}

/// The outcome the escalation reaches once the three platform results are
/// known: a process gone after the grace period terminated gracefully,
/// whether or not the graceful delivery succeeded; one still alive is
/// terminated by the forced signal, recorded as escalated; a forced signal
/// that cannot be delivered leaves the outcome unknown.
pub open spec fn spec_kill_outcome(
    graceful_delivered: bool,
    alive_after_grace: bool,
    forced_delivered: bool,
) -> KillOutcome {
    if !alive_after_grace {
        KillOutcome::Terminated { escalated: false }
    } else if forced_delivered {
        KillOutcome::Terminated { escalated: true }
    } else {
        KillOutcome::Unknown
    }
}

/// Classifies one termination attempt from the platform results the driver
/// observed.
pub fn kill_single_outcome(
    graceful_delivered: bool,
    alive_after_grace: bool,
    forced_delivered: bool,
) -> (r: KillOutcome)
    ensures
        r == spec_kill_outcome(graceful_delivered, alive_after_grace, forced_delivered),
{
    if !alive_after_grace {
        KillOutcome::Terminated { escalated: false }
    } else if forced_delivered {
        KillOutcome::Terminated { escalated: true }
    } else {
        KillOutcome::Unknown
    }
}

/// Every fitting event brings the escalation strictly closer to a terminal
/// state, and the measure is bounded, so an attempt started in `Running`
/// reaches `Terminated` or `Unknown` within the grace period plus one
/// escalation step: it never blocks indefinitely.
pub proof fn lemma_kill_step_progress(s: KillState, e: KillEvent)
    requires
        event_fits(s, e),
    ensures
        kill_measure(spec_kill_step(s, e)) < kill_measure(s),
        kill_measure(s) <= kill_measure(KillState::Running),
        is_terminal(s) <==> kill_measure(s) == 0,
{
}

/// Driving the machine from `Running` with the three platform results
/// reaches a terminal state whose outcome is exactly the classified one.
pub proof fn lemma_kill_single_terminates(
    graceful_delivered: bool,
    alive_after_grace: bool,
    forced_delivered: bool,
)
    ensures
        ({
            let s1 = spec_kill_step(KillState::Running, KillEvent::GracefulSent(
                graceful_delivered,
            ));
            let s2 = spec_kill_step(s1, KillEvent::GraceElapsed);
            let s3 = spec_kill_step(s2, KillEvent::LivenessChecked(alive_after_grace));
            let s4 = if alive_after_grace {
                spec_kill_step(s3, KillEvent::ForcedSent(forced_delivered))
            } else {
                spec_kill_step(s3, KillEvent::OutcomeRecorded)
            };
            let s5 = if is_terminal(s4) {
                s4
            } else {
                spec_kill_step(s4, KillEvent::OutcomeRecorded)
            };
            is_terminal(s5) && s5 == (match spec_kill_outcome(
                graceful_delivered,
                alive_after_grace,
                forced_delivered,
            ) {
                KillOutcome::Terminated { escalated } => KillState::Terminated { escalated },
                KillOutcome::Unknown => KillState::Unknown,
            })
        }),
{
}

/// The at-most-one-in-flight guard: while a kill is executing, a second
/// request is not started. The embedding program holds this behind its
/// synchronization primitive and consults it before dispatching a worker.
pub struct KillGuard {
    in_flight: bool,
}

impl KillGuard {
    /// Whether a kill is currently executing.
    pub closed spec fn spec_in_flight(&self) -> bool {
        self.in_flight
    }

    /// A guard with nothing in flight.
    pub fn new() -> (r: KillGuard)
        ensures
            !r.spec_in_flight(),
    {
        KillGuard { in_flight: false }
    }

    /// Whether a kill is currently executing.
    pub fn is_in_flight(&self) -> (r: bool)
        ensures
            r == self.spec_in_flight(),
    {
        self.in_flight
    }

    /// Requests to start a kill. While one is in flight the request is
    /// refused — dropped, not queued — so at most one kill is ever active;
    /// the requester retries after the flag clears. Otherwise the flag is
    /// taken and the kill may start.
    pub fn try_begin(&mut self) -> (started: bool)
        ensures
            started == !old(self).spec_in_flight(),
            final(self).spec_in_flight(),
    {
        if self.in_flight {
            false
        } else {
            self.in_flight = true;
            true
        }
    }

    /// Records that the kill in flight reached a terminal state; requests
    /// may start again.
    pub fn finish(&mut self)
        ensures
            !final(self).spec_in_flight(),
    {
        self.in_flight = false;
    }
}

/// The aggregate of one bulk kill: how many processes were actually found
/// (and so attempted), with the outcome of each attempt. One pid's failure
/// never aborts the batch; every outcome is collected.
#[derive(Debug)]
pub struct BulkKillResult {
    pub count: usize,
    pub outcomes: Vec<KillOutcome>,
}

/// Aggregates the outcomes of a bulk kill. The count reflects only the
/// processes actually found, not errors: it equals the number of attempts.
pub fn bulk_result(outcomes: Vec<KillOutcome>) -> (r: BulkKillResult)
    ensures
        r.count == outcomes@.len(),
        r.outcomes@ == outcomes@,
{
    let count = outcomes.len();
    BulkKillResult { count, outcomes }
}

/// Whether a single-process kill request must be skipped because the
/// process is protected by the ignore rules: its name is in the ignored
/// names, or one of the ports it listens on is in the ignored ports.
pub open spec fn spec_skip_single_kill(
    name: Seq<char>,
    listed_ports: Seq<u16>,
    ignore_ports: Seq<u16>,
    ignore_names: Seq<Seq<char>>,
) -> bool {
    ignore_names.contains(name) || exists|k: int|
        0 <= k < listed_ports.len() && ignore_ports.contains(#[trigger] listed_ports[k])
}

/// Decides whether a single-process kill request is skipped: the resolved
/// process name and the ports it listens on are checked against the ignore
/// rules before any signal is sent.
pub fn should_skip_single_kill(
    name: &str,
    listed_ports: &Vec<u16>,
    ignore_ports: &Vec<u16>,
    ignore_names: &Vec<String>,
) -> (r: bool)
    ensures
        r == spec_skip_single_kill(
            name@,
            listed_ports@,
            ignore_ports@,
            ignore_names.deep_view(),
        ),
{
    if crate::text::vec_contains_str(ignore_names, name) {
        return true;
    }
    let mut k: usize = 0;
    while k < listed_ports.len()
        invariant
            0 <= k <= listed_ports@.len(),
            forall|j: int| 0 <= j < k ==> !ignore_ports@.contains(#[trigger] listed_ports@[j]),
        decreases listed_ports.len() - k,
    {
        if crate::scan::vec_contains_u16(ignore_ports, listed_ports[k]) {
            return true;
        }
        k = k + 1;
    }
    false
}

/// The ports mentioned on the listing lines for one pid: each line with at
/// least nine fields contributes the port after the last `':'` of its
/// ninth field, where it parses.
pub open spec fn listed_ports_from(lines: Seq<Seq<char>>, i: int) -> Seq<u16>
    decreases lines.len() - i,
{
    if i < 0 || i >= lines.len() {
        seq![]
    } else {
        (({
            let fs = crate::text::spec_fields(lines[i]);
            if fs.len() < 9 {
                seq![]
            } else {
                match crate::text::parse_u16_spec(crate::text::after_last(fs[8], ':')) {
                    Some(port) => seq![port],
                    None => Seq::<u16>::empty(),
                }
            }
        })) + listed_ports_from(lines, i + 1)
    }
}

/// Reads the ports a pid listens on from the listing tool's per-pid
/// output.
pub fn pid_listed_ports(stdout: &str) -> (r: Vec<u16>)
    ensures
        r@ == listed_ports_from(crate::text::spec_lines(stdout@), 0),
{
    let ghost lines_view = crate::text::spec_lines(stdout@);
    let lines = crate::text::split_lines(stdout);
    let mut out: Vec<u16> = Vec::new();
    let mut i: usize = 0;
    while i < lines.len()
        invariant
            0 <= i <= lines@.len(),
            lines.deep_view() == lines_view,
            listed_ports_from(lines_view, 0) == out@ + listed_ports_from(lines_view, i as int),
        decreases lines.len() - i,
    {
        proof {
            assert(lines.deep_view()[i as int] == lines@[i as int]@);
        }
        let fields = crate::text::split_fields(lines[i].as_str());
        if fields.len() >= 9 {
            proof {
                assert(fields.deep_view()[8] == fields@[8]@);
            }
            let port_str = crate::text::suffix_after_last(fields[8].as_str(), ':');
            if let Some(port) = crate::text::parse_u16(port_str.as_str()) {
                out.push(port);
            }
        }
        proof {
            assert(out@ + listed_ports_from(lines_view, i + 1) =~= listed_ports_from(
                lines_view,
                0,
            ));
        }
        i = i + 1;
    }
    proof {
        assert(listed_ports_from(lines_view, i as int) =~= Seq::<u16>::empty());
        assert(out@ =~= out@ + Seq::<u16>::empty());
    }
    out
}

} // verus!
