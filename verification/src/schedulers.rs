//! The worker's periodic schedulers: feed polling and webhook projection.
use vstd::prelude::*;

use crate::outside::{hex_digit, hyphens_before, pow16, uuid_string, uuid_text};
use crate::text::{chars_of, concat_chars, string_of};

verus! {

/// The feed settings of the worker.
#[derive(Clone, Copy, Debug)]
pub struct FeedWorkerConfig {
    /// Seconds between scheduler ticks (at least one is used).
    pub scheduler_interval_secs: u64,
    /// How many due sources one tick claims.
    pub batch_size: i64,
    /// How long a claim on a source lasts, in seconds.
    pub lease_secs: i64,
    /// The poll interval of public feeds, in minutes.
    pub default_poll_interval_minutes: i32,
    /// The shortest poll interval allowed for public feeds, in minutes.
    pub min_poll_interval_minutes: i32,
}

/// The worker's settings.
#[derive(Clone, Copy, Debug)]
pub struct WorkerConfig {
    pub feed: FeedWorkerConfig,
}

/// How often public feeds are polled.
#[derive(Clone, Copy, Debug, PartialEq, Eq, Structural)]
pub struct FeedPollScheduleConfig {
    pub default_public_poll_interval_minutes: i32,
    pub min_public_poll_interval_minutes: i32,
}

/// The larger of two integers.
pub open spec fn max_int(a: int, b: int) -> int {
    if a < b {
        b
    } else {
        a
    }
}

impl FeedPollScheduleConfig {
    /// Whether the intervals make sense: a minimum of at least one minute and
    /// a default no shorter than the minimum.
    pub open spec fn is_normal(self) -> bool {
        1 <= self.min_public_poll_interval_minutes <= self.default_public_poll_interval_minutes
    }

    /// The schedule with a minimum of at least one minute and a default no
    /// shorter than the minimum.
    pub fn normalized(self) -> (r: Self)
        ensures
            r.min_public_poll_interval_minutes == max_int(
                self.min_public_poll_interval_minutes as int,
                1,
            ),
            r.default_public_poll_interval_minutes == max_int(
                self.default_public_poll_interval_minutes as int,
                r.min_public_poll_interval_minutes as int,
            ),
            r.is_normal(),
    {
        let min = if self.min_public_poll_interval_minutes < 1 {
            1
        } else {
            self.min_public_poll_interval_minutes
        };
        let default = if self.default_public_poll_interval_minutes < min {
            min
        } else {
            self.default_public_poll_interval_minutes
        };
        FeedPollScheduleConfig {
            default_public_poll_interval_minutes: default,
            min_public_poll_interval_minutes: min,
        }
    }
}

/// Normalising a normal schedule leaves it as it is.
pub proof fn lemma_normalized_is_idempotent(c: FeedPollScheduleConfig)
    requires
        c.is_normal(),
    ensures
        max_int(c.min_public_poll_interval_minutes as int, 1) == c.min_public_poll_interval_minutes,
        max_int(c.default_public_poll_interval_minutes as int, c.min_public_poll_interval_minutes as int)
            == c.default_public_poll_interval_minutes,
{
}

/// The feed poll schedule that the worker's settings ask for, normalised.
pub fn feed_poll_schedule(config: &WorkerConfig) -> (r: FeedPollScheduleConfig)
    ensures
        r.min_public_poll_interval_minutes == max_int(config.feed.min_poll_interval_minutes as int, 1),
        r.default_public_poll_interval_minutes == max_int(
            config.feed.default_poll_interval_minutes as int,
            r.min_public_poll_interval_minutes as int,
        ),
{
    FeedPollScheduleConfig {
        default_public_poll_interval_minutes: config.feed.default_poll_interval_minutes,
        min_public_poll_interval_minutes: config.feed.min_poll_interval_minutes,
    }.normalized()
}

/// Seconds between feed scheduler ticks: the configured interval, at least one.
pub fn feed_scheduler_interval_secs(config: &WorkerConfig) -> (r: u64)
    ensures
        r == max_int(config.feed.scheduler_interval_secs as int, 1),
{
    if config.feed.scheduler_interval_secs < 1 {
        1
    } else {
        config.feed.scheduler_interval_secs
    }
}

/// The job type of a feed poll.
pub const FEED_POLL_JOB: &'static str = "feed.poll";

/// The deduplication key of the poll job of a feed source.
pub open spec fn poll_dedupe_key(source_id: u128) -> Seq<char> {
    "feed.poll:"@ + uuid_text(source_id)
}

proof fn lemma_pow16_step(k: nat)
    ensures
        pow16(k) > 0,
        pow16(k + 1) == 16 * pow16(k),
    decreases k,
{
    if k > 0 {
        lemma_pow16_step((k - 1) as nat);
    }
}

proof fn lemma_hex_digit_injective(a: nat, b: nat)
    requires
        a < 16,
        b < 16,
        hex_digit(a) == hex_digit(b),
    ensures
        a == b,
{
    assert(hex_digit(a) as int == if a < 10 { a + 48 } else { a + 87 });
    assert(hex_digit(b) as int == if b < 10 { b + 48 } else { b + 87 });
}

/// Where the hex digit of index `j` (most significant first) stands in a
/// hyphenated UUID.
spec fn digit_pos(j: int) -> int {
    if j < 8 {
        j
    } else if j < 12 {
        j + 1
    } else if j < 16 {
        j + 2
    } else if j < 20 {
        j + 3
    } else {
        j + 4
    }
}

proof fn lemma_uuid_nibble(id: u128, j: int)
    requires
        0 <= j < 32,
    ensures
        uuid_text(id)[digit_pos(j)] == hex_digit(((id as nat) / pow16((31 - j) as nat)) % 16),
{
    let p = digit_pos(j);
    assert(0 <= p < 36);
    assert(p != 8 && p != 13 && p != 18 && p != 23);
    assert(p - hyphens_before(p) == j);
}

proof fn lemma_quotients_agree(a: nat, b: nat, k: nat)
    requires
        k <= 32,
        a < pow16(32),
        b < pow16(32),
        forall|i: nat| k <= i < 32 ==> (a / #[trigger] pow16(i)) % 16 == (b / pow16(i)) % 16,
    ensures
        a / pow16(k) == b / pow16(k),
    decreases 32 - k,
{
    lemma_pow16_step(k);
    if k == 32 {
        vstd::arithmetic::div_mod::lemma_basic_div(a as int, pow16(32) as int);
        vstd::arithmetic::div_mod::lemma_basic_div(b as int, pow16(32) as int);
    } else {
        lemma_quotients_agree(a, b, k + 1);
        vstd::arithmetic::div_mod::lemma_div_denominator(a as int, pow16(k) as int, 16);
        vstd::arithmetic::div_mod::lemma_div_denominator(b as int, pow16(k) as int, 16);
        assert(pow16(k) * 16 == pow16(k + 1));
        let qa = a / pow16(k);
        let qb = b / pow16(k);
        assert(qa % 16 == qb % 16);
        vstd::arithmetic::div_mod::lemma_fundamental_div_mod(qa as int, 16);
        vstd::arithmetic::div_mod::lemma_fundamental_div_mod(qb as int, 16);
    }
}

/// Different UUIDs have different texts.
proof fn lemma_uuid_text_injective(a: u128, b: u128)
    requires
        uuid_text(a) == uuid_text(b),
    ensures
        a == b,
{
    assert(pow16(32) == 0x1_0000_0000_0000_0000_0000_0000_0000_0000nat) by {
        reveal_with_fuel(pow16, 33);
    }
    assert forall|i: nat| 0 <= i < 32 implies ((a as nat) / #[trigger] pow16(i)) % 16 == ((b as nat)
        / pow16(i)) % 16 by {
        let j = 31 - i;
        lemma_uuid_nibble(a, j);
        lemma_uuid_nibble(b, j);
        assert(uuid_text(a)[digit_pos(j)] == uuid_text(b)[digit_pos(j)]);
        lemma_hex_digit_injective(((a as nat) / pow16(i)) % 16, ((b as nat) / pow16(i)) % 16);
    }
    lemma_quotients_agree(a as nat, b as nat, 0);
    assert(pow16(0) == 1);
}

/// Distinct feed sources have distinct poll deduplication keys, so the
/// pending poll of one source never stands in for another's.
pub proof fn lemma_dedupe_keys_distinct(a: u128, b: u128)
    requires
        a != b,
    ensures
        poll_dedupe_key(a) != poll_dedupe_key(b),
{
    if poll_dedupe_key(a) == poll_dedupe_key(b) {
        let n = "feed.poll:"@.len() as int;
        assert(poll_dedupe_key(a).skip(n) =~= uuid_text(a));
        assert(poll_dedupe_key(b).skip(n) =~= uuid_text(b));
        lemma_uuid_text_injective(a, b);
    }
}

/// Builds the deduplication key of the poll job of a feed source.
pub fn feed_poll_dedupe_key(source_id: u128) -> (r: String)
    ensures
        r@ == poll_dedupe_key(source_id),
{
    string_of(&concat_chars(&chars_of("feed.poll:"), &chars_of(uuid_string(source_id).as_str())))
}

/// What the worker reports after performing a feed scheduler action.
pub enum FeedTickEvent {
    /// The tick begins.
    Started,
    /// Claiming due sources finished: their ids, or the text of the error.
    Claimed(Result<Vec<u128>, String>),
    /// Serialising and enqueueing the poll job finished.
    Enqueued(Result<(), String>),
    /// Releasing the claim on the source finished (its failure is ignored).
    LeaseCleared,
}

/// What a feed scheduler tick asks the worker to do next.
pub enum FeedTickAction {
    /// Claim up to `batch_size` due sources for `lease_secs` seconds.
    ClaimDueSources { batch_size: i64, lease_secs: i64 },
    /// Enqueue a `job_type` job that polls the source, deduplicated by `dedupe_key`.
    EnqueuePoll { source_id: u128, job_type: &'static str, dedupe_key: String },
    /// Release the claim on a source whose job could not be enqueued.
    ClearLease { source_id: u128 },
    /// The tick is over.
    Done,
}

#[derive(Clone, Copy, Debug, PartialEq, Eq, Structural)]
pub enum FeedTickPhase {
    Ready,
    Claiming,
    Enqueueing,
    ClearingLease,
    Done,
}

pub open spec fn feed_tick_accepts(phase: FeedTickPhase, event: FeedTickEvent) -> bool {
    match phase {
        FeedTickPhase::Ready => event is Started,
        FeedTickPhase::Claiming => event is Claimed,
        FeedTickPhase::Enqueueing => event is Enqueued,
        FeedTickPhase::ClearingLease => event is LeaseCleared,
        FeedTickPhase::Done => false,
    }
}

/// One tick of the feed scheduler: claim the due sources and enqueue a poll
/// job for each; a source whose job cannot be enqueued has its claim released.
pub struct FeedSchedulerTick {
    feed: FeedWorkerConfig,
    phase: FeedTickPhase,
    claimed: Vec<u128>,
    next: usize,
}

impl FeedSchedulerTick {
    pub closed spec fn feed(&self) -> FeedWorkerConfig {
        self.feed
    }

    pub closed spec fn phase(&self) -> FeedTickPhase {
        self.phase
    }

    /// The sources claimed in this tick.
    pub closed spec fn claimed(&self) -> Seq<u128> {
        self.claimed@
    }

    /// The position of the source being enqueued: those before it are done.
    pub closed spec fn next(&self) -> int {
        self.next as int
    }

    pub closed spec fn wf(&self) -> bool {
        &&& self.next <= self.claimed@.len()
        &&& (self.phase == FeedTickPhase::Enqueueing || self.phase == FeedTickPhase::ClearingLease)
            ==> self.next < self.claimed@.len()
    }

    pub fn new(config: &WorkerConfig) -> (t: Self)
        ensures
            t.wf(),
            t.feed() == config.feed,
            t.phase() == FeedTickPhase::Ready,
    {
        FeedSchedulerTick { feed: config.feed, phase: FeedTickPhase::Ready, claimed: Vec::new(), next: 0 }
    }

    pub fn accepts(&self, event: &FeedTickEvent) -> (b: bool)
        ensures
            b == feed_tick_accepts(self.phase(), *event),
    {
        match self.phase {
            FeedTickPhase::Ready => matches!(event, FeedTickEvent::Started),
            FeedTickPhase::Claiming => matches!(event, FeedTickEvent::Claimed(..)),
            FeedTickPhase::Enqueueing => matches!(event, FeedTickEvent::Enqueued(..)),
            FeedTickPhase::ClearingLease => matches!(event, FeedTickEvent::LeaseCleared),
            FeedTickPhase::Done => false,
        }
    }

    fn enqueue_next(&mut self) -> (a: FeedTickAction)
        requires
            old(self).wf(),
        ensures
            final(self).wf(),
            final(self).feed() == old(self).feed(),
            final(self).claimed() == old(self).claimed(),
            final(self).next() == old(self).next(),
            enqueues_next(*final(self), a),
    {
        if self.next < self.claimed.len() {
            let id = self.claimed[self.next];
            self.phase = FeedTickPhase::Enqueueing;
            FeedTickAction::EnqueuePoll {
                source_id: id,
                job_type: FEED_POLL_JOB,
                dedupe_key: feed_poll_dedupe_key(id),
            }
        } else {
            self.phase = FeedTickPhase::Done;
            FeedTickAction::Done
        }
    }

    /// Takes the outcome of the last action and decides the next one.
    pub fn step(&mut self, event: FeedTickEvent) -> (a: FeedTickAction)
        requires
            old(self).wf(),
            feed_tick_accepts(old(self).phase(), event),
        ensures
            final(self).wf(),
            final(self).feed() == old(self).feed(),
            feed_tick_transition(*old(self), event, *final(self), a),
    {
        match event {
            FeedTickEvent::Started => {
                self.phase = FeedTickPhase::Claiming;
                FeedTickAction::ClaimDueSources {
                    batch_size: self.feed.batch_size,
                    lease_secs: self.feed.lease_secs,
                }
            },
            FeedTickEvent::Claimed(r) => match r {
                Err(_) => {
                    self.phase = FeedTickPhase::Done;
                    FeedTickAction::Done
                },
                Ok(ids) => {
                    self.claimed = ids;
                    self.next = 0;
                    self.enqueue_next()
                },
            },
            FeedTickEvent::Enqueued(r) => match r {
                Ok(()) => {
                    assert(self.next < self.claimed.len());
                    self.phase = FeedTickPhase::Ready;
                    self.next = self.next + 1;
                    self.enqueue_next()
                },
                Err(_) => {
                    self.phase = FeedTickPhase::ClearingLease;
                    FeedTickAction::ClearLease { source_id: self.claimed[self.next] }
                },
            },
            FeedTickEvent::LeaseCleared => {
                assert(self.next < self.claimed.len());
                self.phase = FeedTickPhase::Ready;
                self.next = self.next + 1;
                self.enqueue_next()
            },
        }
    }
}

/// The tick enqueues the poll of the source at `next()`, or ends once every
/// claimed source is done.
pub open spec fn enqueues_next(post: FeedSchedulerTick, a: FeedTickAction) -> bool {
    if post.next() < post.claimed().len() {
        let id = post.claimed()[post.next()];
        &&& post.phase() == FeedTickPhase::Enqueueing
        &&& a matches FeedTickAction::EnqueuePoll { source_id, job_type, dedupe_key }
        &&& source_id == id
        &&& job_type@ == FEED_POLL_JOB@
        &&& dedupe_key@ == poll_dedupe_key(id)
    } else {
        post.phase() == FeedTickPhase::Done && a is Done
    }
}

/// What one step of a feed scheduler tick does.
pub open spec fn feed_tick_transition(pre: FeedSchedulerTick, event: FeedTickEvent, post: FeedSchedulerTick, a: FeedTickAction) -> bool {
    match event {
        FeedTickEvent::Started => post.phase() == FeedTickPhase::Claiming && a
            == FeedTickAction::ClaimDueSources {
            batch_size: pre.feed().batch_size,
            lease_secs: pre.feed().lease_secs,
        },
        FeedTickEvent::Claimed(r) => match r {
            Err(_) => post.phase() == FeedTickPhase::Done && a is Done,
            Ok(ids) => post.claimed() == ids@ && post.next() == 0 && enqueues_next(post, a),
        },
        FeedTickEvent::Enqueued(r) => match r {
            Ok(()) => post.claimed() == pre.claimed() && post.next() == pre.next() + 1
                && enqueues_next(post, a),
            Err(_) => post.claimed() == pre.claimed() && post.next() == pre.next() && post.phase()
                == FeedTickPhase::ClearingLease && a == FeedTickAction::ClearLease {
                source_id: pre.claimed()[pre.next()],
            },
        },
        FeedTickEvent::LeaseCleared => post.claimed() == pre.claimed() && post.next() == pre.next()
            + 1 && enqueues_next(post, a),
    }
}

/// Seconds between webhook projector ticks.
pub const WEBHOOK_PROJECTOR_INTERVAL_SECS: u64 = 5;

/// How many due webhooks one projector tick projects at most.
pub const WEBHOOK_PROJECTOR_BATCH: i64 = 100;

/// What a webhook projector tick reports.
#[derive(Debug, PartialEq, Eq)]
pub enum ProjectorReport {
    /// This many dispatches were enqueued (logged as information).
    Enqueued(u64),
    /// Nothing was due (nothing is logged).
    Idle,
    /// The projection failed with this error text (logged as an error).
    Failed(String),
}

/// What a projector tick reports of its outcome.
pub fn webhook_projector_report(result: Result<u64, String>) -> (r: ProjectorReport)
    ensures
        match result {
            Ok(count) => if count > 0 {
                r == ProjectorReport::Enqueued(count)
            } else {
                r == ProjectorReport::Idle
            },
            Err(t) => r == ProjectorReport::Failed(t),
        },
{
    match result {
        Ok(count) => if count > 0 {
            ProjectorReport::Enqueued(count)
        } else {
            ProjectorReport::Idle
        },
        Err(t) => ProjectorReport::Failed(t),
    }
}

} // verus!
