//! Commits of executions in batches: executions wait in a queue, are taken in batches
//! of a bounded size, and the outcome of each batch is counted.

use vstd::prelude::*;
use crate::db::models::ExecutionRecord;
use crate::text::{decimal_of, with_number, join3};

verus! {

/// The counters of the commits.
#[derive(Debug, Clone, Copy, PartialEq, Eq, Structural)]
pub struct CommitStats {
    pub total_commits: u64,
    pub total_batches: u64,
    pub failed_commits: u64,
    pub queue_size: usize,
}

impl CommitStats {
    /// "CommitStats { 총 커밋: <c>, 총 배치: <b>, 실패: <f>, 큐 크기: <q> }".
    pub fn to_string(&self) -> (r: String)
        ensures
            r@ == "CommitStats { 총 커밋: "@ + decimal_of(self.total_commits as nat) + ", 총 배치: "@
                + decimal_of(self.total_batches as nat) + ", 실패: "@ + decimal_of(self.failed_commits as nat)
                + ", 큐 크기: "@ + decimal_of(self.queue_size as nat) + " }"@,
    {
        let a = with_number("CommitStats { 총 커밋: ", self.total_commits);
        let b = with_number(", 총 배치: ", self.total_batches);
        let c = with_number(", 실패: ", self.failed_commits);
        let d = with_number(", 큐 크기: ", self.queue_size as u64);
        let ab = join3(a.as_str(), b.as_str(), "");
        let cd = join3(c.as_str(), d.as_str(), " }");
        let r = join3(ab.as_str(), cd.as_str(), "");
        proof {
            reveal_strlit("");
        }
        r
    }
}

/// The number of `true` among `s`.
pub open spec fn count_true(s: Seq<bool>) -> nat
    decreases s.len(),
{
    if s.len() == 0 { 0 } else { count_true(s.drop_last()) + if s.last() { 1nat } else { 0nat } }
}

pub proof fn lemma_count_true(s: Seq<bool>)
    ensures
        count_true(s) <= s.len(),
    decreases s.len(),
{
    if s.len() > 0 {
        lemma_count_true(s.drop_last());
    }
}

/// The queue of executions waiting to be committed, the batch limits and the counters.
pub struct AsyncCommitManager {
    commit_queue: Vec<ExecutionRecord>,
    batch_size: usize,
    batch_interval_ms: u64,
    total_commits: u64,
    total_batches: u64,
    failed_commits: u64,
}

impl AsyncCommitManager {
    /// The executions waiting, oldest first.
    pub closed spec fn queue(&self) -> Seq<ExecutionRecord> {
        self.commit_queue@
    }

    /// The largest batch.
    pub closed spec fn batch_limit(&self) -> usize {
        self.batch_size
    }

    /// The pause between batches.
    pub closed spec fn interval(&self) -> u64 {
        self.batch_interval_ms
    }

    /// (committed, batches, failed).
    pub closed spec fn counters(&self) -> (u64, u64, u64) {
        (self.total_commits, self.total_batches, self.failed_commits)
    }

    /// An empty queue, batches of up to 100 every 10 ms, counters at zero.
    pub fn new() -> (r: Self)
        ensures
            r.queue().len() == 0,
            r.batch_limit() == 100,
            r.interval() == 10,
            r.counters() == (0u64, 0u64, 0u64),
    {
        AsyncCommitManager {
            commit_queue: Vec::new(),
            batch_size: 100,
            batch_interval_ms: 10,
            total_commits: 0,
            total_batches: 0,
            failed_commits: 0,
        }
    }

    /// The same manager with another batch size and interval.
    pub fn with_config(self, batch_size: usize, batch_interval_ms: u64) -> (r: Self)
        ensures
            r.queue() == self.queue(),
            r.batch_limit() == batch_size,
            r.interval() == batch_interval_ms,
            r.counters() == self.counters(),
    {
        let mut s = self;
        s.batch_size = batch_size;
        s.batch_interval_ms = batch_interval_ms;
        s
    }

    /// The pause between batches in milliseconds.
    pub fn batch_interval_ms(&self) -> (r: u64)
        ensures
            r == self.interval(),
    {
        self.batch_interval_ms
    }

    /// Puts an execution at the end of the queue.
    pub fn enqueue(&mut self, execution: ExecutionRecord)
        ensures
            final(self).queue() == old(self).queue().push(execution),
            final(self).batch_limit() == old(self).batch_limit(),
            final(self).interval() == old(self).interval(),
            final(self).counters() == old(self).counters(),
    {
        self.commit_queue.push(execution);
    }

    /// Takes the next batch: the oldest executions, as many as the batch size allows.
    pub fn take_batch(&mut self) -> (r: Vec<ExecutionRecord>)
        ensures
            ({
                let n = if old(self).batch_limit() < old(self).queue().len() {
                    old(self).batch_limit() as int
                } else {
                    old(self).queue().len() as int
                };
                &&& r@ == old(self).queue().take(n)
                &&& final(self).queue() == old(self).queue().skip(n)
            }),
            final(self).batch_limit() == old(self).batch_limit(),
            final(self).interval() == old(self).interval(),
            final(self).counters() == old(self).counters(),
    {
        let n = if self.batch_size < self.commit_queue.len() { self.batch_size } else { self.commit_queue.len() };
        let ghost q = self.commit_queue@;
        let mut batch: Vec<ExecutionRecord> = Vec::new();
        let mut i: usize = 0;
        while i < n
            invariant
                n <= q.len(),
                i <= n,
                batch@ == q.take(i as int),
                self.commit_queue@ == q.skip(i as int),
                self.batch_size == old(self).batch_size,
                self.batch_interval_ms == old(self).batch_interval_ms,
                self.total_commits == old(self).total_commits,
                self.total_batches == old(self).total_batches,
                self.failed_commits == old(self).failed_commits,
            decreases n - i,
        {
            let e = self.commit_queue.remove(0);
            proof {
                assert(e == q[i as int]);
            }
            batch.push(e);
            proof {
                assert(batch@ =~= q.take(i + 1));
                assert(self.commit_queue@ =~= q.skip(i + 1));
            }
            i = i + 1;
        }
        batch
    }

    /// Counts the outcome of a committed batch, one entry per execution (whether it was
    /// stored): the stored ones are committed, the others failed, and one more batch.
    pub fn commit_batch_results(&mut self, stored: &Vec<bool>)
        requires
            old(self).counters().0 + stored.len() <= u64::MAX,
            old(self).counters().1 < u64::MAX,
            old(self).counters().2 + stored.len() <= u64::MAX,
        ensures
            final(self).counters() == (
                (old(self).counters().0 + count_true(stored@)) as u64,
                (old(self).counters().1 + 1) as u64,
                (old(self).counters().2 + (stored.len() - count_true(stored@))) as u64,
            ),
            final(self).queue() == old(self).queue(),
            final(self).batch_limit() == old(self).batch_limit(),
            final(self).interval() == old(self).interval(),
    {
        let mut ok: u64 = 0;
        let mut i: usize = 0;
        while i < stored.len()
            invariant
                i <= stored.len(),
                ok == count_true(stored@.take(i as int)),
                ok <= i,
            decreases stored.len() - i,
        {
            proof {
                let t = stored@.take(i + 1);
                assert(t.drop_last() =~= stored@.take(i as int));
                lemma_count_true(stored@.take(i as int));
            }
            if stored[i] {
                ok = ok + 1;
            }
            i = i + 1;
        }
        proof {
            assert(stored@.take(stored.len() as int) =~= stored@);
        }
        let failed = stored.len() as u64 - ok;
        self.total_commits = self.total_commits + ok;
        self.total_batches = self.total_batches + 1;
        self.failed_commits = self.failed_commits + failed;
    }

    /// The counters and the queue's length.
    pub fn get_stats(&self) -> (r: CommitStats)
        ensures
            (r.total_commits, r.total_batches, r.failed_commits) == self.counters(),
            r.queue_size == self.queue().len(),
    {
        CommitStats {
            total_commits: self.total_commits,
            total_batches: self.total_batches,
            failed_commits: self.failed_commits,
            queue_size: self.commit_queue.len(),
        }
    }
}

/// Batching neither loses nor reorders executions: the batch taken followed by what
/// stays queued is the queue as it was, for any batch size.
pub proof fn law_batches_keep_order(q: Seq<ExecutionRecord>, n: int)
    requires
        0 <= n <= q.len(),
    ensures
        q.take(n) + q.skip(n) == q,
{
    assert(q.take(n) + q.skip(n) =~= q);
}

/// The counts of a batch add up: committed and failed together are the batch's size.
pub proof fn law_batch_counts_add_up(stored: Seq<bool>)
    ensures
        count_true(stored) + (stored.len() - count_true(stored)) == stored.len(),
        count_true(stored) <= stored.len(),
{
    lemma_count_true(stored);
}

} // verus!
