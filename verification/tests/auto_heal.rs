use indelible::auto_heal::{
    integrity_stats_from_counts, integrity_stats_log_message, integrity_stats_log_severity,
    lease_expiry, schedule_after, IntegrityAction, IntegrityCheck, IntegrityEvent, IntegritySchedule,
    IntegrityStats, IntegrityStatsLogSeverity, MAX_INSTANT_MS,
};
use indelible::error::AppError;

fn stats(a: i64, b: i64, c: i64) -> IntegrityStats {
    IntegrityStats { documents_missing_search_rows: a, failed_derived_assets: b, dead_letter_jobs: c }
}

#[test]
fn severity_warns_on_any_problem() {
    assert_eq!(integrity_stats_log_severity(&stats(0, 0, 0)), IntegrityStatsLogSeverity::Info);
    assert_eq!(integrity_stats_log_severity(&stats(1, 0, 0)), IntegrityStatsLogSeverity::Warn);
    assert_eq!(integrity_stats_log_severity(&stats(0, 2, 0)), IntegrityStatsLogSeverity::Warn);
    assert_eq!(integrity_stats_log_severity(&stats(0, 0, 3)), IntegrityStatsLogSeverity::Warn);
    assert_eq!(integrity_stats_log_severity(&stats(-1, 0, 0)), IntegrityStatsLogSeverity::Info);
    assert_eq!(integrity_stats_log_message(&stats(0, 0, 0)).1, "integrity stats sweep finished");
    assert_eq!(integrity_stats_log_message(&stats(0, 0, 1)).1, "integrity stats sweep found issues");
}

#[test]
fn absent_counts_are_zero() {
    assert_eq!(integrity_stats_from_counts(None, Some(4), None), stats(0, 4, 0));
}

#[test]
fn schedules_add_seconds() {
    assert_eq!(schedule_after(1_000, 60), 61_000);
    assert_eq!(schedule_after(-5_000, 0), -5_000);
    assert_eq!(lease_expiry(0, 30), 30_000);
    assert_eq!(lease_expiry(0, 0), 1_000);
    assert_eq!(lease_expiry(0, -5), 1_000);
}

fn schedule() -> IntegritySchedule {
    IntegritySchedule { maintenance_lease_secs: 120, integrity_interval_secs: 3600 }
}

#[test]
fn a_due_check_sweeps_logs_and_completes() {
    let mut check = IntegrityCheck::new(schedule());
    match check.step(IntegrityEvent::Started { now: 10_000 }) {
        IntegrityAction::AcquireLease { task, now, lease_until } => {
            assert_eq!((task, now, lease_until), ("integrity.check", 10_000, 130_000));
        }
        _ => panic!("expected a lease"),
    }
    assert!(matches!(check.step(IntegrityEvent::LeaseAcquired(Ok(true))), IntegrityAction::SweepStats));
    match check.step(IntegrityEvent::StatsSwept { result: Ok(stats(1, 0, 0)), now: 20_000 }) {
        IntegrityAction::LogStats { severity, message, .. } => {
            assert_eq!(severity, IntegrityStatsLogSeverity::Warn);
            assert_eq!(message, "integrity stats sweep found issues");
        }
        _ => panic!("expected a log"),
    }
    match check.step(IntegrityEvent::StatsLogged) {
        IntegrityAction::CompleteTask { task, next_run_at, now } => {
            assert_eq!((task, next_run_at, now), ("integrity.check", 3_620_000, 20_000));
        }
        _ => panic!("expected completion"),
    }
    assert!(matches!(check.step(IntegrityEvent::TaskReleased(Err("x".into()))), IntegrityAction::Done));
}

#[test]
fn a_held_lease_skips_the_check() {
    let mut check = IntegrityCheck::new(schedule());
    check.step(IntegrityEvent::Started { now: 0 });
    assert!(matches!(check.step(IntegrityEvent::LeaseAcquired(Ok(false))), IntegrityAction::Done));
    let mut check = IntegrityCheck::new(schedule());
    check.step(IntegrityEvent::Started { now: 0 });
    assert!(matches!(check.step(IntegrityEvent::LeaseAcquired(Err("db".into()))), IntegrityAction::Done));
}

#[test]
fn a_failed_sweep_is_retried_after_a_minute() {
    let mut check = IntegrityCheck::new(schedule());
    check.step(IntegrityEvent::Started { now: 0 });
    check.step(IntegrityEvent::LeaseAcquired(Ok(true)));
    let err = AppError::Repository("timeout".into());
    match check.step(IntegrityEvent::StatsSwept { result: Err(err.clone()), now: 5_000 }) {
        IntegrityAction::FailTask { task, error, next_run_at, now } => {
            assert_eq!((task, next_run_at, now), ("integrity.check", 65_000, 5_000));
            assert_eq!(error, err);
        }
        _ => panic!("expected failure"),
    }
}

#[test]
fn instants_beyond_the_calendar_are_not_accepted() {
    let check = IntegrityCheck::new(schedule());
    assert!(check.accepts(&IntegrityEvent::Started { now: 0 }));
    assert!(!check.accepts(&IntegrityEvent::Started { now: MAX_INSTANT_MS }));
    assert!(!check.accepts(&IntegrityEvent::StatsLogged));
}
