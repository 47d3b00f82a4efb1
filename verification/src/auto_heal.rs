//! The worker's self-healing maintenance: when the integrity check runs,
//! how its findings are reported and when it is scheduled again.
//!
//! Instants are milliseconds since the Unix epoch, within the range that
//! `chrono::DateTime<Utc>` represents.
use vstd::prelude::*;

use crate::error::AppError;

verus! {

/// The first instant that a `DateTime<Utc>` holds (-262143-01-01T00:00:00Z).
pub const MIN_INSTANT_MS: i64 = -8_334_601_315_200_000;

/// The last instant that a `DateTime<Utc>` holds (+262142-12-31T23:59:59.999Z).
pub const MAX_INSTANT_MS: i64 = 8_210_266_876_799_999;

/// The largest number of seconds that a `chrono::TimeDelta` holds.
pub const MAX_DELTA_SECS: i64 = 9_223_372_036_854_775;

/// An instant that a `DateTime<Utc>` can hold.
pub open spec fn is_instant(ms: int) -> bool {
    MIN_INSTANT_MS <= ms <= MAX_INSTANT_MS
}

/// The maintenance task that the integrity check runs under.
pub const INTEGRITY_TASK: &'static str = "integrity.check";

/// How long a failed maintenance task waits before it is retried.
pub const MAINTENANCE_FAILURE_RETRY_SECS: u64 = 60;

/// `now` plus `seconds`, in milliseconds.
pub open spec fn after(now: int, seconds: int) -> int {
    now + seconds * 1000
}

/// The instant `seconds` after `now`. Seconds beyond what a `TimeDelta`
/// holds, or a result beyond what a `DateTime<Utc>` holds, are refused by
/// chrono with a panic; they are left out here.
pub fn schedule_after(now: i64, seconds: u64) -> (r: i64)
    requires
        is_instant(now as int),
        seconds <= MAX_DELTA_SECS,
        is_instant(after(now as int, seconds as int)),
    ensures
        r == after(now as int, seconds as int),
{
    now + (seconds as i64) * 1000
}

/// When a maintenance lease taken at `now` expires: after the configured
/// number of seconds, at least one.
pub fn lease_expiry(now: i64, lease_secs: i64) -> (r: i64)
    requires
        is_instant(now as int),
        lease_secs <= MAX_DELTA_SECS,
        is_instant(after(now as int, if lease_secs < 1 { 1 } else { lease_secs as int })),
    ensures
        r == after(now as int, if lease_secs < 1 { 1 } else { lease_secs as int }),
{
    let secs: i64 = if lease_secs < 1 { 1 } else { lease_secs };
    now + secs * 1000
}

/// Counts of integrity problems found in the store.
#[derive(Clone, Copy, Debug, PartialEq, Eq, Structural)]
pub struct IntegrityStats {
    pub documents_missing_search_rows: i64,
    pub failed_derived_assets: i64,
    pub dead_letter_jobs: i64,
}

/// The stats of a store query whose counts may be absent (absent counts
/// are zero).
pub fn integrity_stats_from_counts(
    documents_missing_search_rows: Option<i64>,
    failed_derived_assets: Option<i64>,
    dead_letter_jobs: Option<i64>,
) -> (s: IntegrityStats)
    ensures
        s.documents_missing_search_rows == match documents_missing_search_rows {
            Some(n) => n,
            None => 0,
        },
        s.failed_derived_assets == match failed_derived_assets {
            Some(n) => n,
            None => 0,
        },
        s.dead_letter_jobs == match dead_letter_jobs {
            Some(n) => n,
            None => 0,
        },
{
    IntegrityStats {
        documents_missing_search_rows: match documents_missing_search_rows {
            Some(n) => n,
            None => 0,
        },
        failed_derived_assets: match failed_derived_assets {
            Some(n) => n,
            None => 0,
        },
        dead_letter_jobs: match dead_letter_jobs {
            Some(n) => n,
            None => 0,
        },
    }
}

/// How loudly a sweep's findings are logged.
#[derive(Clone, Copy, Debug, PartialEq, Eq, Structural)]
pub enum IntegrityStatsLogSeverity {
    Info,
    Warn,
}

/// Whether the stats show any problem.
pub open spec fn has_issues(stats: IntegrityStats) -> bool {
    stats.documents_missing_search_rows > 0 || stats.failed_derived_assets > 0
        || stats.dead_letter_jobs > 0
}

/// A warning when any count is positive, information otherwise.
pub fn integrity_stats_log_severity(stats: &IntegrityStats) -> (s: IntegrityStatsLogSeverity)
    ensures
        s == (if has_issues(*stats) {
            IntegrityStatsLogSeverity::Warn
        } else {
            IntegrityStatsLogSeverity::Info
        }),
{
    if stats.documents_missing_search_rows > 0 || stats.failed_derived_assets > 0
        || stats.dead_letter_jobs > 0 {
        IntegrityStatsLogSeverity::Warn
    } else {
        IntegrityStatsLogSeverity::Info
    }
}

/// The log line for a sweep's findings, and its severity.
pub fn integrity_stats_log_message(stats: &IntegrityStats) -> (r: (IntegrityStatsLogSeverity, &'static str))
    ensures
        r.0 == (if has_issues(*stats) {
            IntegrityStatsLogSeverity::Warn
        } else {
            IntegrityStatsLogSeverity::Info
        }),
        r.1@ == (if has_issues(*stats) {
            "integrity stats sweep found issues"@
        } else {
            "integrity stats sweep finished"@
        }),
{
    match integrity_stats_log_severity(stats) {
        IntegrityStatsLogSeverity::Info => (IntegrityStatsLogSeverity::Info, "integrity stats sweep finished"),
        IntegrityStatsLogSeverity::Warn => (IntegrityStatsLogSeverity::Warn, "integrity stats sweep found issues"),
    }
}

/// The settings that the integrity check runs with.
#[derive(Clone, Copy, Debug)]
pub struct IntegritySchedule {
    /// How long a maintenance lease lasts, in seconds (at least one is used).
    pub maintenance_lease_secs: i64,
    /// How long after a completed check the next one is due, in seconds.
    pub integrity_interval_secs: u64,
}

/// What the worker reports after performing an integrity check action.
pub enum IntegrityEvent {
    /// The check is attempted at `now`.
    Started { now: i64 },
    /// Taking the lease of the task finished: whether it was taken, or the
    /// text of the store's error.
    LeaseAcquired(Result<bool, String>),
    /// The stats sweep finished at `now`.
    StatsSwept { result: Result<IntegrityStats, AppError>, now: i64 },
    /// The findings were logged.
    StatsLogged,
    /// Releasing the task finished (a failure is only logged).
    TaskReleased(Result<(), String>),
}

/// What the integrity check asks the worker to do next.
pub enum IntegrityAction {
    /// Take the lease of `task` from `now` until `lease_until`.
    AcquireLease { task: &'static str, now: i64, lease_until: i64 },
    /// Count the integrity problems.
    SweepStats,
    /// Log the findings with this severity and message.
    LogStats { stats: IntegrityStats, severity: IntegrityStatsLogSeverity, message: &'static str },
    /// Mark `task` completed at `now`, due again at `next_run_at`.
    CompleteTask { task: &'static str, next_run_at: i64, now: i64 },
    /// Log the sweep's error and mark `task` failed at `now`, due again at
    /// `next_run_at`.
    FailTask { task: &'static str, error: AppError, next_run_at: i64, now: i64 },
    /// Nothing more to do.
    Done,
}

#[derive(Clone, Copy, Debug, PartialEq, Eq, Structural)]
pub enum IntegrityPhase {
    Ready,
    AcquiringLease,
    Sweeping,
    Logging,
    Releasing,
    Done,
}

/// The events that a phase expects, with the times that chrono can add to.
pub open spec fn integrity_accepts(phase: IntegrityPhase, schedule: IntegritySchedule, event: IntegrityEvent) -> bool {
    match phase {
        IntegrityPhase::Ready => event matches IntegrityEvent::Started { now } && is_instant(
            now as int,
        ) && schedule.maintenance_lease_secs <= MAX_DELTA_SECS && is_instant(
            after(
                now as int,
                if schedule.maintenance_lease_secs < 1 {
                    1
                } else {
                    schedule.maintenance_lease_secs as int
                },
            ),
        ),
        IntegrityPhase::AcquiringLease => event is LeaseAcquired,
        IntegrityPhase::Sweeping => event matches IntegrityEvent::StatsSwept { result, now }
            && is_instant(now as int) && match result {
            Ok(_) => schedule.integrity_interval_secs <= MAX_DELTA_SECS && is_instant(
                after(now as int, schedule.integrity_interval_secs as int),
            ),
            Err(_) => is_instant(after(now as int, MAINTENANCE_FAILURE_RETRY_SECS as int)),
        },
        IntegrityPhase::Logging => event is StatsLogged,
        IntegrityPhase::Releasing => event is TaskReleased,
        IntegrityPhase::Done => false,
    }
}

/// One run of the integrity check: take the task's lease (or skip the run
/// when another worker holds it), sweep the stats, log them and complete the
/// task; when the sweep fails, mark the task failed and retry it later.
pub struct IntegrityCheck {
    schedule: IntegritySchedule,
    phase: IntegrityPhase,
    completion: i64,
}

impl IntegrityCheck {
    pub closed spec fn schedule(&self) -> IntegritySchedule {
        self.schedule
    }

    pub closed spec fn phase(&self) -> IntegrityPhase {
        self.phase
    }

    /// When the sweep finished (once it has).
    pub closed spec fn finished_at(&self) -> i64 {
        self.completion
    }

    /// After a successful sweep, the next run can be scheduled.
    pub closed spec fn wf(&self) -> bool {
        self.phase == IntegrityPhase::Logging ==> {
            &&& is_instant(self.completion as int)
            &&& self.schedule.integrity_interval_secs <= MAX_DELTA_SECS
            &&& is_instant(after(self.completion as int, self.schedule.integrity_interval_secs as int))
        }
    }

    pub fn new(schedule: IntegritySchedule) -> (c: Self)
        ensures
            c.wf(),
            c.schedule() == schedule,
            c.phase() == IntegrityPhase::Ready,
    {
        IntegrityCheck { schedule, phase: IntegrityPhase::Ready, completion: 0 }
    }

    /// Whether the check expects `event` now.
    pub fn accepts(&self, event: &IntegrityEvent) -> (b: bool)
        ensures
            b == integrity_accepts(self.phase(), self.schedule(), *event),
    {
        match self.phase {
            IntegrityPhase::Ready => match event {
                IntegrityEvent::Started { now } => {
                    let secs: i64 = if self.schedule.maintenance_lease_secs < 1 {
                        1
                    } else {
                        self.schedule.maintenance_lease_secs
                    };
                    MIN_INSTANT_MS <= *now && *now <= MAX_INSTANT_MS
                        && self.schedule.maintenance_lease_secs <= MAX_DELTA_SECS
                        && (*now as i128) + (secs as i128) * 1000 >= MIN_INSTANT_MS as i128
                        && (*now as i128) + (secs as i128) * 1000 <= MAX_INSTANT_MS as i128
                },
                _ => false,
            },
            IntegrityPhase::AcquiringLease => matches!(event, IntegrityEvent::LeaseAcquired(..)),
            IntegrityPhase::Sweeping => match event {
                IntegrityEvent::StatsSwept { result, now } => {
                    if !(MIN_INSTANT_MS <= *now && *now <= MAX_INSTANT_MS) {
                        return false;
                    }
                    match result {
                        Ok(_) => {
                            let secs = self.schedule.integrity_interval_secs;
                            secs <= MAX_DELTA_SECS as u64 && (*now as i128) + (secs as i128) * 1000
                                <= MAX_INSTANT_MS as i128
                        },
                        Err(_) => (*now as i128) + 60_000 <= MAX_INSTANT_MS as i128,
                    }
                },
                _ => false,
            },
            IntegrityPhase::Logging => matches!(event, IntegrityEvent::StatsLogged),
            IntegrityPhase::Releasing => matches!(event, IntegrityEvent::TaskReleased(..)),
            IntegrityPhase::Done => false,
        }
    }

    /// Takes the outcome of the last action and decides the next one.
    pub fn step(&mut self, event: IntegrityEvent) -> (a: IntegrityAction)
        requires
            old(self).wf(),
            integrity_accepts(old(self).phase(), old(self).schedule(), event),
        ensures
            final(self).wf(),
            final(self).schedule() == old(self).schedule(),
            integrity_transition(*old(self), event, *final(self), a),
    {
        match event {
            IntegrityEvent::Started { now } => {
                self.phase = IntegrityPhase::AcquiringLease;
                IntegrityAction::AcquireLease {
                    task: INTEGRITY_TASK,
                    now,
                    lease_until: lease_expiry(now, self.schedule.maintenance_lease_secs),
                }
            },
            IntegrityEvent::LeaseAcquired(r) => match r {
                Ok(true) => {
                    self.phase = IntegrityPhase::Sweeping;
                    IntegrityAction::SweepStats
                },
                _ => {
                    self.phase = IntegrityPhase::Done;
                    IntegrityAction::Done
                },
            },
            IntegrityEvent::StatsSwept { result, now } => match result {
                Ok(stats) => {
                    self.completion = now;
                    self.phase = IntegrityPhase::Logging;
                    let (severity, message) = integrity_stats_log_message(&stats);
                    IntegrityAction::LogStats { stats, severity, message }
                },
                Err(error) => {
                    self.phase = IntegrityPhase::Releasing;
                    IntegrityAction::FailTask {
                        task: INTEGRITY_TASK,
                        error,
                        next_run_at: schedule_after(now, MAINTENANCE_FAILURE_RETRY_SECS),
                        now,
                    }
                },
            },
            IntegrityEvent::StatsLogged => {
                self.phase = IntegrityPhase::Releasing;
                let now = self.completion;
                IntegrityAction::CompleteTask {
                    task: INTEGRITY_TASK,
                    next_run_at: schedule_after(now, self.schedule.integrity_interval_secs),
                    now,
                }
            },
            IntegrityEvent::TaskReleased(_) => {
                self.phase = IntegrityPhase::Done;
                IntegrityAction::Done
            },
        }
    }
}

/// What one step of the integrity check does.
pub open spec fn integrity_transition(pre: IntegrityCheck, event: IntegrityEvent, post: IntegrityCheck, a: IntegrityAction) -> bool {
    let schedule = pre.schedule();
    match event {
        IntegrityEvent::Started { now } => {
            &&& post.phase() == IntegrityPhase::AcquiringLease
            &&& a matches IntegrityAction::AcquireLease { task, now: at, lease_until }
            &&& task@ == INTEGRITY_TASK@
            &&& at == now
            &&& lease_until == after(
                now as int,
                if schedule.maintenance_lease_secs < 1 { 1 } else { schedule.maintenance_lease_secs as int },
            )
        },
        IntegrityEvent::LeaseAcquired(r) => if r == Ok::<bool, String>(true) {
            post.phase() == IntegrityPhase::Sweeping && a is SweepStats
        } else {
            post.phase() == IntegrityPhase::Done && a is Done
        },
        IntegrityEvent::StatsSwept { result, now } => match result {
            Ok(stats) => {
                &&& post.phase() == IntegrityPhase::Logging
                &&& post.finished_at() == now
                &&& a matches IntegrityAction::LogStats { stats: s, severity, message }
                &&& s == stats
                &&& severity == (if has_issues(stats) {
                    IntegrityStatsLogSeverity::Warn
                } else {
                    IntegrityStatsLogSeverity::Info
                })
                &&& message@ == (if has_issues(stats) {
                    "integrity stats sweep found issues"@
                } else {
                    "integrity stats sweep finished"@
                })
            },
            Err(error) => {
                &&& post.phase() == IntegrityPhase::Releasing
                &&& a matches IntegrityAction::FailTask { task, error: e, next_run_at, now: at }
                &&& task@ == INTEGRITY_TASK@
                &&& e == error
                &&& at == now
                &&& next_run_at == after(now as int, MAINTENANCE_FAILURE_RETRY_SECS as int)
            },
        },
        IntegrityEvent::StatsLogged => {
            &&& post.phase() == IntegrityPhase::Releasing
            &&& a matches IntegrityAction::CompleteTask { task, next_run_at, now }
            &&& task@ == INTEGRITY_TASK@
            &&& now == pre.finished_at()
            &&& next_run_at == after(pre.finished_at() as int, schedule.integrity_interval_secs as int)
        },
        IntegrityEvent::TaskReleased(_) => post.phase() == IntegrityPhase::Done && a is Done,
    }
}

} // verus!
