use waylock::supervisor::{Action, ChildExit, RestartLedger, Supervisor, WINDOW};

const TENTH: u64 = 100_000_000;

#[test]
fn breaker_trips_on_the_fourth_crash_of_five() {
    let mut supervisor = Supervisor::new(3);
    assert_eq!(supervisor.on_exit(ChildExit::Abnormal, 0), Action::Respawn);
    assert_eq!(supervisor.on_exit(ChildExit::Abnormal, TENTH), Action::Respawn);
    assert_eq!(supervisor.on_exit(ChildExit::Abnormal, 2 * TENTH), Action::Respawn);
    assert_eq!(supervisor.exit_code(), None);
    assert_eq!(supervisor.on_exit(ChildExit::Abnormal, 3 * TENTH), Action::Abort);
    assert_eq!(supervisor.exit_code(), Some(1));
    assert_eq!(supervisor.on_exit(ChildExit::Abnormal, 4 * TENTH), Action::Abort);
    assert_eq!(supervisor.exit_code(), Some(1));
}

#[test]
fn explicit_codes_end_the_supervisor_with_the_same_code() {
    let mut supervisor = Supervisor::new(3);
    assert_eq!(supervisor.on_exit(ChildExit::Exited(0), 5), Action::Exit(0));
    assert_eq!(supervisor.exit_code(), Some(0));
    let mut supervisor = Supervisor::new(3);
    assert_eq!(supervisor.on_exit(ChildExit::Exited(1), 5), Action::Exit(1));
    assert_eq!(supervisor.exit_code(), Some(1));
    assert_eq!(supervisor.on_exit(ChildExit::Exited(0), 6), Action::Exit(1));
    assert_eq!(supervisor.on_exit(ChildExit::Abnormal, 7), Action::Exit(1));
}

#[test]
fn unexpected_codes_are_crashes() {
    for code in [2, 3, 101, 255, -1, i32::MIN, i32::MAX] {
        let mut supervisor = Supervisor::new(1);
        assert_eq!(supervisor.on_exit(ChildExit::Exited(code), 0), Action::Respawn);
        assert_eq!(supervisor.exit_code(), None);
    }
}

#[test]
fn slow_crashes_are_restarted_for_ever() {
    let mut supervisor = Supervisor::new(2);
    let mut now = 0;
    for _ in 0..20 {
        assert_eq!(supervisor.on_exit(ChildExit::Abnormal, now), Action::Respawn);
        now += WINDOW / 2;
    }
}

#[test]
fn breaker_needs_a_full_second_for_the_oldest() {
    let mut ledger = RestartLedger::new(1);
    assert!(!ledger.record(10));
    assert!(ledger.record(10 + WINDOW - 1));
    assert_eq!(ledger.len(), 1);
    assert!(!ledger.record(10 + WINDOW));
    assert_eq!(ledger.len(), 1);
    assert!(ledger.record(10 + WINDOW + 1));
}

#[test]
fn ledger_never_exceeds_its_capacity() {
    let mut ledger = RestartLedger::new(3);
    assert_eq!(ledger.capacity(), 3);
    let mut now = 0;
    for n in 0..10usize {
        assert_eq!(ledger.len(), n.min(3));
        assert!(!ledger.record(now));
        now += 2 * WINDOW;
    }
    assert_eq!(ledger.len(), 3);
}

#[test]
fn ledger_without_room_never_trips() {
    let mut ledger = RestartLedger::new(0);
    for now in 0..5 {
        assert!(!ledger.record(now));
        assert_eq!(ledger.len(), 0);
    }
    let mut supervisor = Supervisor::new(0);
    for now in 0..5 {
        assert_eq!(supervisor.on_exit(ChildExit::Abnormal, now), Action::Respawn);
    }
}

#[test]
fn clock_that_goes_back_counts_as_no_time() {
    let mut ledger = RestartLedger::new(1);
    assert!(!ledger.record(5 * WINDOW));
    assert!(ledger.record(0));
}

#[test]
fn tripped_ledger_keeps_its_entries() {
    let mut ledger = RestartLedger::new(2);
    assert!(!ledger.record(0));
    assert!(!ledger.record(1));
    assert!(ledger.record(2));
    assert_eq!(ledger.len(), 2);
    assert!(ledger.record(WINDOW - 1));
    assert!(!ledger.record(WINDOW));
    assert!(ledger.record(WINDOW));
    assert!(!ledger.record(WINDOW + 1));
}
