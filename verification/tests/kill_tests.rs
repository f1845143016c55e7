use port_kill::kill::{
    bulk_result, kill_single_outcome, kill_step, next_action, pid_listed_ports,
    should_skip_single_kill, KillAction, KillEvent, KillGuard, KillOutcome, KillState,
};

#[test]
fn test_graceful_exit_within_grace() {
    // a pid that exits within the grace period after the graceful signal:
    // outcome Terminated, escalation not recorded
    let outcome = kill_single_outcome(true, false, false);
    assert_eq!(outcome, KillOutcome::Terminated { escalated: false });
}

#[test]
fn test_graceful_delivery_failure_is_best_effort() {
    // a failed graceful signal does not abort the attempt: the process may
    // already be gone by the liveness re-check
    let outcome = kill_single_outcome(false, false, false);
    assert_eq!(outcome, KillOutcome::Terminated { escalated: false });
}

#[test]
fn test_escalation_recorded() {
    let outcome = kill_single_outcome(true, true, true);
    assert_eq!(outcome, KillOutcome::Terminated { escalated: true });
}

#[test]
fn test_forced_failure_is_unknown() {
    let outcome = kill_single_outcome(true, true, false);
    assert_eq!(outcome, KillOutcome::Unknown);
}

#[test]
fn test_escalation_walk_reaches_terminal() {
    // Running -> SignalSent -> WaitingGrace -> StillAlive -> Escalated ->
    // Terminated, one event each: a terminal state within the grace period
    // plus one escalation step
    let mut s = KillState::Running;
    assert_eq!(next_action(s), KillAction::SendGraceful);
    s = kill_step(s, KillEvent::GracefulSent(true));
    assert_eq!(s, KillState::SignalSent);
    assert_eq!(next_action(s), KillAction::WaitGrace);
    s = kill_step(s, KillEvent::GraceElapsed);
    assert_eq!(s, KillState::WaitingGrace);
    assert_eq!(next_action(s), KillAction::CheckAlive);
    s = kill_step(s, KillEvent::LivenessChecked(true));
    assert_eq!(s, KillState::StillAlive);
    assert_eq!(next_action(s), KillAction::SendForced);
    s = kill_step(s, KillEvent::ForcedSent(true));
    assert_eq!(s, KillState::Escalated);
    s = kill_step(s, KillEvent::OutcomeRecorded);
    assert_eq!(s, KillState::Terminated { escalated: true });
    assert_eq!(
        next_action(s),
        KillAction::Done(KillOutcome::Terminated { escalated: true })
    );
}

#[test]
fn test_gone_after_grace_walk() {
    let mut s = KillState::Running;
    s = kill_step(s, KillEvent::GracefulSent(false));
    s = kill_step(s, KillEvent::GraceElapsed);
    s = kill_step(s, KillEvent::LivenessChecked(false));
    assert_eq!(s, KillState::Gone);
    s = kill_step(s, KillEvent::OutcomeRecorded);
    assert_eq!(s, KillState::Terminated { escalated: false });
}

#[test]
fn test_forced_failure_walk() {
    let mut s = KillState::Running;
    s = kill_step(s, KillEvent::GracefulSent(true));
    s = kill_step(s, KillEvent::GraceElapsed);
    s = kill_step(s, KillEvent::LivenessChecked(true));
    s = kill_step(s, KillEvent::ForcedSent(false));
    assert_eq!(s, KillState::Unknown);
    assert_eq!(next_action(s), KillAction::Done(KillOutcome::Unknown));
}

#[test]
fn test_guard_at_most_one_in_flight() {
    // while a kill is in flight a second request is refused, not queued
    let mut guard = KillGuard::new();
    assert!(!guard.is_in_flight());
    assert!(guard.try_begin());
    assert!(guard.is_in_flight());
    assert!(!guard.try_begin());
    assert!(!guard.try_begin());
    guard.finish();
    assert!(!guard.is_in_flight());
    assert!(guard.try_begin());
}

#[test]
fn test_bulk_outcomes_collected() {
    // one pid's delivery fails and another succeeds: the outcome list holds
    // one Unknown and one Terminated; the count reflects the processes
    // actually found
    let first = kill_single_outcome(false, true, false);
    let second = kill_single_outcome(true, false, false);
    let result = bulk_result(vec![first, second]);
    assert_eq!(result.count, 2);
    assert_eq!(
        result.outcomes,
        vec![
            KillOutcome::Unknown,
            KillOutcome::Terminated { escalated: false }
        ]
    );
}

#[test]
fn test_single_kill_skip_rules() {
    assert!(should_skip_single_kill(
        "Chrome",
        &vec![],
        &vec![],
        &vec!["Chrome".to_string()]
    ));
    assert!(should_skip_single_kill(
        "node",
        &vec![3000, 5353],
        &vec![5353],
        &vec![]
    ));
    assert!(!should_skip_single_kill(
        "node",
        &vec![3000],
        &vec![5353],
        &vec!["Chrome".to_string()]
    ));
}

#[test]
fn test_pid_listed_ports() {
    let out = "COMMAND PID USER FD TYPE DEVICE SIZE/OFF NODE NAME\n\
node 111 me 23u IPv4 0x1 0t0 TCP *:3000 (LISTEN)\n\
node 111 me 24u IPv4 0x1 0t0 TCP 127.0.0.1:5353 (LISTEN)\n";
    // the header line has too few parseable fields and contributes nothing
    assert_eq!(pid_listed_ports(out), vec![3000, 5353]);
}
