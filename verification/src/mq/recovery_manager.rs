//! The recovery of backed-up messages: which are taken, what a republication's outcome
//! does to the backup queue and the counts, and how long to wait after a failure.

use vstd::prelude::*;
use vstd::arithmetic::power2::pow2;
use crate::mq::backup_queue::{BackupMessage, BackupQueueStats, LocalBackupQueue, MQType, split_type, without_id,
    bump_retries, law_recover_loses_nothing};
use crate::text::{decimal_of, join3, with_number};

verus! {

/// The state of the recovery.
#[derive(Clone, Copy, Debug, PartialEq, Eq, Structural)]
pub enum RecoveryStatus {
    Idle,
    Recovering,
    Paused,
    Failed,
}

/// Counts of the recovery.
#[derive(Debug, Clone, Copy)]
pub struct RecoveryStats {
    pub total_recovered: u64,
    pub total_failed: u64,
    pub current_batch_size: usize,
    pub last_recovery_time: u64,
    pub status: RecoveryStatus,
}

/// Settings of the recovery.
#[derive(Debug, Clone, Copy)]
pub struct RecoveryConfig {
    pub batch_size: usize,
    pub recovery_interval_ms: u64,
    pub max_retry_delay_ms: u64,
    pub base_retry_delay_ms: u64,
    pub max_batch_size: usize,
    pub min_batch_size: usize,
}

impl Default for RecoveryConfig {
    /// Batches of 10 every second, retry delays from 1 s up to 30 s, batches between 1
    /// and 100.
    fn default() -> (r: Self)
        ensures
            r.batch_size == 10,
            r.recovery_interval_ms == 1000,
            r.max_retry_delay_ms == 30000,
            r.base_retry_delay_ms == 1000,
            r.max_batch_size == 100,
            r.min_batch_size == 1,
    {
        RecoveryConfig {
            batch_size: 10,
            recovery_interval_ms: 1000,
            max_retry_delay_ms: 30000,
            base_retry_delay_ms: 1000,
            max_batch_size: 100,
            min_batch_size: 1,
        }
    }
}

/// The wait after a failed republication: the base delay doubled for each retry so
/// far, at most the longest delay.
pub open spec fn backoff(config: RecoveryConfig, retry_count: u32) -> int {
    let d = config.base_retry_delay_ms * pow2(retry_count as nat);
    if d < config.max_retry_delay_ms { d } else { config.max_retry_delay_ms as int }
}

/// The wait after a failed republication of a message that was retried `retry_count`
/// times: `min(base * 2^retry_count, max)`.
pub fn backoff_delay(config: &RecoveryConfig, retry_count: u32) -> (r: u64)
    requires
        retry_count < 64,
        config.base_retry_delay_ms * pow2(retry_count as nat) <= u64::MAX,
    ensures
        r == backoff(*config, retry_count),
{
    let shift: u64 = retry_count as u64;
    proof {
        vstd::bits::lemma_u64_pow2_no_overflow(shift as nat);
        vstd::bits::lemma_u64_shl_is_mul(1, shift);
    }
    let p: u64 = 1u64 << shift;
    proof {
        assert(p == pow2(retry_count as nat));
        assert(config.base_retry_delay_ms * p <= u64::MAX);
    }
    let d = config.base_retry_delay_ms * p;
    if d < config.max_retry_delay_ms { d } else { config.max_retry_delay_ms }
}

/// `x + 1` wrapping around at 2^64.
pub open spec fn inc64(x: u64) -> u64 {
    if x == u64::MAX { 0 } else { (x + 1) as u64 }
}

/// The counts after one republication's outcome in a batch of `batch` at `now`.
pub open spec fn stats_after(s: RecoveryStats, success: bool, batch: usize, now: u64) -> RecoveryStats {
    RecoveryStats {
        total_recovered: if success { inc64(s.total_recovered) } else { s.total_recovered },
        total_failed: if success { s.total_failed } else { inc64(s.total_failed) },
        current_batch_size: batch,
        last_recovery_time: now,
        ..s
    }
}

/// The counts after a batch of outcomes.
pub open spec fn stats_after_all(s: RecoveryStats, outcomes: Seq<bool>, batch: usize, now: u64) -> RecoveryStats
    decreases outcomes.len(),
{
    if outcomes.len() == 0 {
        s
    } else {
        stats_after(stats_after_all(s, outcomes.drop_last(), batch, now), outcomes.last(), batch, now)
    }
}

/// The backup queue's messages after the outcomes of a batch: a republished message
/// leaves, a failed one counts a retry.
pub open spec fn queue_after_all(q: Seq<BackupMessage>, messages: Seq<BackupMessage>, outcomes: Seq<bool>) -> Seq<BackupMessage>
    decreases outcomes.len(),
{
    if outcomes.len() == 0 || messages.len() < outcomes.len() {
        q
    } else {
        let q1 = queue_after_all(q, messages, outcomes.drop_last());
        let m = messages[outcomes.len() - 1];
        if outcomes.last() { without_id(q1, m.id@) } else { bump_retries(q1, m.id@) }
    }
}

/// The number of successes among the outcomes.
pub open spec fn successes(outcomes: Seq<bool>) -> nat
    decreases outcomes.len(),
{
    if outcomes.len() == 0 {
        0
    } else {
        successes(outcomes.drop_last()) + if outcomes.last() { 1nat } else { 0nat }
    }
}

/// The recovery manager.
pub struct RecoveryManager {
    config: RecoveryConfig,
    recovery_status: RecoveryStatus,
    stats: RecoveryStats,
    is_recovery_active: bool,
}

impl RecoveryManager {
    /// The settings.
    pub closed spec fn settings(&self) -> RecoveryConfig {
        self.config
    }

    /// The state.
    pub closed spec fn status(&self) -> RecoveryStatus {
        self.recovery_status
    }

    /// The counts.
    pub closed spec fn counts(&self) -> RecoveryStats {
        self.stats
    }

    /// Whether the recovery runs.
    pub closed spec fn active(&self) -> bool {
        self.is_recovery_active
    }

    /// An idle manager with zero counts, last recovered at `now`.
    pub fn new(config: RecoveryConfig, now: u64) -> (r: Self)
        ensures
            r.settings() == config,
            r.status() == RecoveryStatus::Idle,
            r.counts() == (RecoveryStats {
                total_recovered: 0,
                total_failed: 0,
                current_batch_size: 0,
                last_recovery_time: now,
                status: RecoveryStatus::Idle,
            }),
            !r.active(),
    {
        RecoveryManager {
            config,
            recovery_status: RecoveryStatus::Idle,
            stats: RecoveryStats {
                total_recovered: 0,
                total_failed: 0,
                current_batch_size: 0,
                last_recovery_time: now,
                status: RecoveryStatus::Idle,
            },
            is_recovery_active: false,
        }
    }

    /// Starts the recovery; false, and nothing changes, when it already runs.
    pub fn start_recovery(&mut self) -> (r: bool)
        ensures
            r == !old(self).active(),
            final(self).active(),
            final(self).status() == old(self).status(),
            final(self).counts() == old(self).counts(),
            final(self).settings() == old(self).settings(),
    {
        if self.is_recovery_active {
            return false;
        }
        self.is_recovery_active = true;
        true
    }

    /// Stops the recovery; it becomes idle.
    pub fn stop_recovery(&mut self)
        ensures
            !final(self).active(),
            final(self).status() == RecoveryStatus::Idle,
            final(self).counts() == old(self).counts(),
            final(self).settings() == old(self).settings(),
    {
        self.is_recovery_active = false;
        self.recovery_status = RecoveryStatus::Idle;
    }

    /// The state.
    pub fn get_recovery_status(&self) -> (r: RecoveryStatus)
        ensures
            r == self.status(),
    {
        self.recovery_status
    }

    /// The counts.
    pub fn get_recovery_stats(&self) -> (r: RecoveryStats)
        ensures
            r == self.counts(),
    {
        self.stats
    }

    /// Whether the recovery runs.
    pub fn is_active(&self) -> (r: bool)
        ensures
            r == self.active(),
    {
        self.is_recovery_active
    }

    /// A recovery of queue `mq_type` started by hand at `now`: up to the largest batch
    /// of its messages are taken out of the backup queue, oldest first, and
    /// republished, the i-th with outcome `outcomes[i]`. Then, by id, a republished
    /// message is removed from what the queue still holds and a failed one has its
    /// retries counted there (the taken messages are no longer in it, so a failed one
    /// is not put back). The recovery's own counts do not change. Answers how many were
    /// republished.
    pub fn trigger_manual_recovery(
        &self,
        queue: &mut LocalBackupQueue,
        mq_type: &MQType,
        outcomes: &Vec<bool>,
        now: u64,
    ) -> (r: usize)
        requires
            outcomes@.len() >= self.settings().max_batch_size,
        ensures
            ({
                let taken = split_type(old(queue).messages(), *mq_type, self.settings().max_batch_size as nat);
                let used = outcomes@.take(taken.0.len() as int);
                &&& r == successes(used)
                &&& final(queue).messages() == queue_after_all(taken.1, taken.0, used)
            }),
            final(queue).capacity() == old(queue).capacity(),
    {
        let messages = queue.recover_messages(mq_type, self.config.max_batch_size, now);
        proof {
            law_recover_loses_nothing(old(queue).messages(), *mq_type, self.config.max_batch_size as nat);
        }
        let ghost rest = queue.messages();
        let n = messages.len();
        let mut count: usize = 0;
        let mut i: usize = 0;
        while i < n
            invariant
                n == messages@.len(),
                n <= outcomes@.len(),
                i <= n,
                count == successes(outcomes@.take(i as int)),
                count <= i,
                queue.messages() == queue_after_all(rest, messages@, outcomes@.take(i as int)),
                queue.capacity() == old(queue).capacity(),
            decreases n - i,
        {
            proof {
                let t = outcomes@.take(i + 1);
                assert(t.drop_last() =~= outcomes@.take(i as int));
                assert(t.last() == outcomes@[i as int]);
            }
            let id = messages[i].id.as_str();
            if outcomes[i] {
                queue.remove_message(id, now);
                count = count + 1;
            } else {
                queue.increment_retry_count(id, now);
            }
            i = i + 1;
        }
        count
    }

    /// The recovery report, with the counts of `queue`.
    pub fn generate_recovery_report(&self, queue: &LocalBackupQueue) -> (r: String)
        ensures
            r@ == recovery_report(self.status(), self.counts(), queue.counts()),
    {
        let b = queue.get_stats();
        let st = match self.recovery_status {
            RecoveryStatus::Idle => "Idle",
            RecoveryStatus::Recovering => "Recovering",
            RecoveryStatus::Paused => "Paused",
            RecoveryStatus::Failed => "Failed",
        };
        proof {
            reveal_strlit("Idle");
            reveal_strlit("Recovering");
            reveal_strlit("Paused");
            reveal_strlit("Failed");
        }
        let s0 = join3("=== 복구 리포트 ===\n상태: ", st, "\n총 복구: ");
        let s1 = with_number(s0.as_str(), self.stats.total_recovered);
        let s2 = join3(s1.as_str(), "개\n총 실패: ", "");
        let s3 = with_number(s2.as_str(), self.stats.total_failed);
        let s4 = join3(s3.as_str(), "개\n현재 배치 크기: ", "");
        let s5 = with_number(s4.as_str(), self.stats.current_batch_size as u64);
        let s6 = join3(s5.as_str(), "\n마지막 복구 시간: ", "");
        let s7 = with_number(s6.as_str(), self.stats.last_recovery_time);
        let s8 = join3(s7.as_str(), "\n백업 큐 크기: ", "");
        let s9 = with_number(s8.as_str(), b.total_messages as u64);
        let s10 = join3(s9.as_str(), "개\n대기 중: ", "");
        let s11 = with_number(s10.as_str(), b.pending_messages as u64);
        let s12 = join3(s11.as_str(), "개\n실패: ", "");
        let s13 = with_number(s12.as_str(), b.failed_messages as u64);
        let r = join3(s13.as_str(), "개\n=================", "");
        proof {
            reveal_strlit("");
            assert(s2@ =~= s1@ + "개\n총 실패: "@);
            assert(s4@ =~= s3@ + "개\n현재 배치 크기: "@);
            assert(s6@ =~= s5@ + "\n마지막 복구 시간: "@);
            assert(s8@ =~= s7@ + "\n백업 큐 크기: "@);
            assert(s10@ =~= s9@ + "개\n대기 중: "@);
            assert(s12@ =~= s11@ + "개\n실패: "@);
            assert(r@ =~= s13@ + "개\n================="@);
            assert(r@ =~= recovery_report(self.status(), self.counts(), queue.counts()));
        }
        r
    }

    /// Takes the outcomes of republishing a batch at `now`, message by message: a
    /// republished message leaves the backup queue and counts as recovered; a failed one
    /// counts a retry and a failure. Answers how many were republished.
    pub fn apply_outcomes(
        &mut self,
        queue: &mut LocalBackupQueue,
        messages: &Vec<BackupMessage>,
        outcomes: &Vec<bool>,
        now: u64,
    ) -> (r: usize)
        requires
            messages@.len() == outcomes@.len(),
        ensures
            r == successes(outcomes@),
            final(queue).messages() == queue_after_all(old(queue).messages(), messages@, outcomes@),
            final(self).counts() == stats_after_all(old(self).counts(), outcomes@, messages@.len() as usize, now),
            final(self).status() == old(self).status(),
            final(self).settings() == old(self).settings(),
            final(self).active() == old(self).active(),
            final(queue).capacity() == old(queue).capacity(),
    {
        let n = messages.len();
        let mut count: usize = 0;
        let mut i: usize = 0;
        while i < n
            invariant
                n == messages@.len(),
                n == outcomes@.len(),
                i <= n,
                count == successes(outcomes@.take(i as int)),
                count <= i,
                queue.messages() == queue_after_all(old(queue).messages(), messages@, outcomes@.take(i as int)),
                self.stats == stats_after_all(old(self).counts(), outcomes@.take(i as int), n, now),
                self.recovery_status == old(self).recovery_status,
                self.config == old(self).config,
                self.is_recovery_active == old(self).is_recovery_active,
                queue.capacity() == old(queue).capacity(),
            decreases n - i,
        {
            proof {
                let t = outcomes@.take(i + 1);
                assert(t.drop_last() =~= outcomes@.take(i as int));
                assert(t.last() == outcomes@[i as int]);
            }
            let id = messages[i].id.as_str();
            if outcomes[i] {
                queue.remove_message(id, now);
                self.stats.total_recovered = self.stats.total_recovered.wrapping_add(1);
                count = count + 1;
            } else {
                queue.increment_retry_count(id, now);
                self.stats.total_failed = self.stats.total_failed.wrapping_add(1);
            }
            self.stats.current_batch_size = n;
            self.stats.last_recovery_time = now;
            i = i + 1;
        }
        proof {
            assert(outcomes@.take(n as int) =~= outcomes@);
        }
        count
    }
}

/// The name of a recovery state, as `Debug` writes it.
pub open spec fn recovery_status_name(s: RecoveryStatus) -> Seq<char> {
    match s {
        RecoveryStatus::Idle => "Idle"@,
        RecoveryStatus::Recovering => "Recovering"@,
        RecoveryStatus::Paused => "Paused"@,
        RecoveryStatus::Failed => "Failed"@,
    }
}

/// The recovery report of the counts `s` in state `st` beside the backup queue's counts
/// `b`: a header, the state, recovered, failed, batch size, last recovery time, backup
/// queue size, pending and failed messages, a line each, and a footer.
pub open spec fn recovery_report(st: RecoveryStatus, s: RecoveryStats, b: BackupQueueStats) -> Seq<char> {
    "=== 복구 리포트 ===\n상태: "@ + recovery_status_name(st)
        + "\n총 복구: "@ + decimal_of(s.total_recovered as nat) + "개\n총 실패: "@ + decimal_of(s.total_failed as nat)
        + "개\n현재 배치 크기: "@ + decimal_of(s.current_batch_size as nat) + "\n마지막 복구 시간: "@
        + decimal_of(s.last_recovery_time as nat) + "\n백업 큐 크기: "@ + decimal_of(b.total_messages as nat)
        + "개\n대기 중: "@ + decimal_of(b.pending_messages as nat) + "개\n실패: "@
        + decimal_of(b.failed_messages as nat) + "개\n================="@
}

/// The batch to take from the backup queue for queue `t`: nothing unless `t` is
/// healthy, else up to `limit` of its messages.
pub fn take_batch(queue: &mut LocalBackupQueue, t: &MQType, healthy: bool, limit: usize, now: u64) -> (r: Vec<BackupMessage>)
    ensures
        !healthy ==> r@.len() == 0 && final(queue).messages() == old(queue).messages(),
        healthy ==> r@ == crate::mq::backup_queue::split_type(old(queue).messages(), *t, limit as nat).0
            && final(queue).messages() == crate::mq::backup_queue::split_type(old(queue).messages(), *t, limit as nat).1,
{
    if !healthy {
        return Vec::new();
    }
    queue.recover_messages(t, limit, now)
}

} // verus!
