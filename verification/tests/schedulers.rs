use indelible::schedulers::{
    feed_poll_dedupe_key, feed_poll_schedule, feed_scheduler_interval_secs, webhook_projector_report,
    FeedPollScheduleConfig, FeedSchedulerTick, FeedTickAction, FeedTickEvent, FeedWorkerConfig,
    ProjectorReport, WorkerConfig,
};

fn config(interval: u64, default: i32, min: i32) -> WorkerConfig {
    WorkerConfig {
        feed: FeedWorkerConfig {
            scheduler_interval_secs: interval,
            batch_size: 50,
            lease_secs: 300,
            default_poll_interval_minutes: default,
            min_poll_interval_minutes: min,
        },
    }
}

#[test]
fn poll_schedules_are_normalised() {
    assert_eq!(
        feed_poll_schedule(&config(1, 60, 15)),
        FeedPollScheduleConfig { default_public_poll_interval_minutes: 60, min_public_poll_interval_minutes: 15 }
    );
    assert_eq!(
        feed_poll_schedule(&config(1, 5, 15)),
        FeedPollScheduleConfig { default_public_poll_interval_minutes: 15, min_public_poll_interval_minutes: 15 }
    );
    assert_eq!(
        feed_poll_schedule(&config(1, -3, 0)),
        FeedPollScheduleConfig { default_public_poll_interval_minutes: 1, min_public_poll_interval_minutes: 1 }
    );
    let once = feed_poll_schedule(&config(1, 7, 3));
    assert_eq!(once.normalized(), once);
}

#[test]
fn the_scheduler_ticks_at_least_every_second() {
    assert_eq!(feed_scheduler_interval_secs(&config(0, 1, 1)), 1);
    assert_eq!(feed_scheduler_interval_secs(&config(30, 1, 1)), 30);
}

#[test]
fn dedupe_keys_name_the_source() {
    assert_eq!(
        feed_poll_dedupe_key(0x67e5504410b1426f9247bb680e5fe0c8),
        "feed.poll:67e55044-10b1-426f-9247-bb680e5fe0c8"
    );
}

#[test]
fn distinct_sources_have_distinct_dedupe_keys() {
    let ids = [0u128, 1, 16, 1 << 64, (1 << 64) + 1, u128::MAX, u128::MAX - 1];
    for a in ids {
        for b in ids {
            assert_eq!(a == b, feed_poll_dedupe_key(a) == feed_poll_dedupe_key(b));
        }
    }
    assert_eq!(feed_poll_dedupe_key(u128::MAX), "feed.poll:ffffffff-ffff-ffff-ffff-ffffffffffff");
}

#[test]
fn a_tick_enqueues_each_claimed_source() {
    let mut tick = FeedSchedulerTick::new(&config(1, 1, 1));
    assert!(matches!(tick.step(FeedTickEvent::Started), FeedTickAction::ClaimDueSources { batch_size: 50, lease_secs: 300 }));
    match tick.step(FeedTickEvent::Claimed(Ok(vec![1, 2]))) {
        FeedTickAction::EnqueuePoll { source_id, job_type, dedupe_key } => {
            assert_eq!((source_id, job_type), (1, "feed.poll"));
            assert_eq!(dedupe_key, "feed.poll:00000000-0000-0000-0000-000000000001");
        }
        _ => panic!("expected an enqueue"),
    }
    assert!(matches!(tick.step(FeedTickEvent::Enqueued(Err("full".into()))), FeedTickAction::ClearLease { source_id: 1 }));
    assert!(matches!(tick.step(FeedTickEvent::LeaseCleared), FeedTickAction::EnqueuePoll { source_id: 2, .. }));
    assert!(matches!(tick.step(FeedTickEvent::Enqueued(Ok(()))), FeedTickAction::Done));
}

#[test]
fn a_failed_claim_ends_the_tick() {
    let mut tick = FeedSchedulerTick::new(&config(1, 1, 1));
    tick.step(FeedTickEvent::Started);
    assert!(matches!(tick.step(FeedTickEvent::Claimed(Err("db".into()))), FeedTickAction::Done));
    let mut tick = FeedSchedulerTick::new(&config(1, 1, 1));
    tick.step(FeedTickEvent::Started);
    assert!(matches!(tick.step(FeedTickEvent::Claimed(Ok(vec![]))), FeedTickAction::Done));
}

#[test]
fn projector_reports() {
    assert_eq!(webhook_projector_report(Ok(3)), ProjectorReport::Enqueued(3));
    assert_eq!(webhook_projector_report(Ok(0)), ProjectorReport::Idle);
    assert_eq!(webhook_projector_report(Err("x".into())), ProjectorReport::Failed("x".into()));
}
