//! The lock-free balance cache, on `dashmap` and `crossbeam`: reads and arithmetic
//! act at once, sets go through a queue of writes that is worked off in order; a
//! partitioned variant spreads keys over partitions by their hash.

use vstd::prelude::*;
use crate::metrics::{bump, LockFreeCacheStatus, LockFreeMetrics};
use crate::outside::{dash_compare_exchange, dash_fetch_add, dash_fetch_sub, dash_get, dash_len, dash_new,
    dash_store, dash_values, no_balances, default_hash_of_str, hash_str, instant_now, seg_len, seg_new, seg_pop, seg_push, seg_items};
use crate::text::join3;

verus! {

/// What a queued write does.
#[derive(Debug, Clone, Copy, PartialEq, Eq, Structural)]
pub enum WriteType {
    Assign,
    Add,
    Subtract,
}

/// A queued write.
#[derive(Debug)]
pub struct WriteOperation {
    pub key: String,
    pub value: u64,
    pub operation_type: WriteType,
    pub timestamp: std::time::Instant,
}

/// The balances after a queued write: a set stores the value, an add adds it (wrapping
/// at 2^64, starting from 0 for a new key), a subtract takes it off an existing key
/// (wrapping) and ignores a missing one.
pub open spec fn apply_write(m: Map<Seq<char>, u64>, key: Seq<char>, value: u64, t: WriteType) -> Map<Seq<char>, u64> {
    match t {
        WriteType::Assign => m.insert(key, value),
        WriteType::Add => m.insert(key, (if m.contains_key(key) { m[key] } else { 0u64 }).wrapping_add(value)),
        WriteType::Subtract => if m.contains_key(key) { m.insert(key, m[key].wrapping_sub(value)) } else { m },
    }
}

/// The balances after the queued writes `ops`, applied oldest first.
pub open spec fn apply_writes(m: Map<Seq<char>, u64>, ops: Seq<(Seq<char>, u64, WriteType)>) -> Map<Seq<char>, u64>
    decreases ops.len(),
{
    if ops.len() == 0 {
        m
    } else {
        apply_writes(apply_write(m, ops[0].0, ops[0].1, ops[0].2), ops.drop_first())
    }
}

/// The lock-free balance cache: the balances in a `dashmap::DashMap` of atomic
/// counters, the queued writes in a `crossbeam` `SegQueue`.
pub struct LockFreeCache {
    balances: dashmap::DashMap<String, std::sync::atomic::AtomicU64>,
    write_queue: crossbeam::queue::SegQueue<WriteOperation>,
    metrics: LockFreeMetrics,
}

impl LockFreeCache {
    /// The balances, by key.
    pub closed spec fn balances(&self) -> Map<Seq<char>, u64> {
        dash_values(self.balances)
    }

    /// The number of balances kept.
    pub closed spec fn entry_count(&self) -> nat {
        self.balances().dom().len()
    }

    /// The queued writes, oldest first: key, value, kind.
    pub closed spec fn pending(&self) -> Seq<(Seq<char>, u64, WriteType)> {
        seg_items(self.write_queue)
    }

    /// The counters.
    pub closed spec fn counters(&self) -> LockFreeMetrics {
        self.metrics
    }

    /// An empty cache with no queued write and counters at zero.
    pub fn new() -> (r: Self)
        ensures
            r.balances() == Map::<Seq<char>, u64>::empty(),
            r.pending().len() == 0,
            r.counters().reads == 0 && r.counters().writes == 0,
            r.counters().cache_hits == 0 && r.counters().cache_misses == 0,
            r.counters().queue_size == 0,
    {
        LockFreeCache { balances: dash_new(), write_queue: seg_new(), metrics: LockFreeMetrics::new() }
    }

    /// The balance of `key`, if kept; counts a read and a hit or a miss.
    pub fn get(&mut self, key: &str) -> (r: Option<u64>)
        ensures
            r == (if old(self).balances().contains_key(key@) { Some(old(self).balances()[key@]) } else { None::<u64> }),
            final(self).balances() == old(self).balances(),
            final(self).pending() == old(self).pending(),
            final(self).counters().reads == bump(old(self).counters().reads),
            final(self).counters().writes == old(self).counters().writes,
            final(self).counters().cache_hits == if r is Some { bump(old(self).counters().cache_hits) } else { old(self).counters().cache_hits },
            final(self).counters().cache_misses == if r is None { bump(old(self).counters().cache_misses) } else { old(self).counters().cache_misses },
    {
        self.metrics.record_read();
        let r = dash_get(&self.balances, key);
        match r {
            Some(_) => self.metrics.record_hit(),
            None => self.metrics.record_miss(),
        }
        r
    }

    /// Sets `key` to `value`; counts a write. The write goes through the queue, which is
    /// then worked off, so a later read sees it: every write queued before it is applied
    /// first, in order, and the queue is left empty.
    pub fn set(&mut self, key: &str, value: u64)
        ensures
            final(self).balances() == apply_writes(old(self).balances(), old(self).pending().push(
                (key@, value, WriteType::Assign))),
            old(self).pending().len() == 0 ==> final(self).balances() == old(self).balances().insert(key@, value),
            final(self).pending().len() == 0,
            final(self).counters().writes == bump(old(self).counters().writes),
            final(self).counters().reads == old(self).counters().reads,
    {
        self.metrics.record_write();
        seg_push(
            &mut self.write_queue,
            WriteOperation {
                key: String::from_str(key),
                value,
                operation_type: WriteType::Assign,
                timestamp: instant_now(),
            },
        );
        let ghost target = apply_writes(old(self).balances(), self.pending());
        while seg_len(&self.write_queue) > 0
            invariant
                apply_writes(self.balances(), self.pending()) == target,
                self.counters().writes == bump(old(self).counters().writes),
                self.counters().reads == old(self).counters().reads,
            decreases self.pending().len(),
        {
            let ghost b = self.balances();
            let ghost p = self.pending();
            self.process_next_write();
            proof {
                assert(apply_writes(b, p) == apply_writes(apply_write(b, p[0].0, p[0].1, p[0].2), p.drop_first()));
            }
        }
        proof {
            assert(self.pending().len() == 0);
            if old(self).pending().len() == 0 {
                let ops = old(self).pending().push((key@, value, WriteType::Assign));
                let m1 = apply_write(old(self).balances(), key@, value, WriteType::Assign);
                assert(ops[0] == (key@, value, WriteType::Assign));
                assert(ops.drop_first() =~= Seq::<(Seq<char>, u64, WriteType)>::empty());
                assert(apply_writes(m1, ops.drop_first()) == m1);
                assert(target == m1);
            }
        }
    }

    /// Adds `delta` to `key` at once (from 0 for a new key) and answers the new balance;
    /// counts a write.
    pub fn add(&mut self, key: &str, delta: u64) -> (r: u64)
        requires
            old(self).balances().contains_key(key@) ==> old(self).balances()[key@] + delta <= u64::MAX,
        ensures
            r == (if old(self).balances().contains_key(key@) { old(self).balances()[key@] } else { 0 }) + delta,
            final(self).balances() == old(self).balances().insert(key@, r),
            final(self).pending() == old(self).pending(),
            final(self).counters().writes == bump(old(self).counters().writes),
            final(self).counters().reads == old(self).counters().reads,
    {
        self.metrics.record_write();
        let before = dash_fetch_add(&mut self.balances, key, delta);
        before + delta
    }

    /// Takes `delta` off `key` at once when it is kept and holds at least `delta`, and
    /// answers the new balance; otherwise answers none and changes nothing. Counts a
    /// write either way.
    pub fn subtract(&mut self, key: &str, delta: u64) -> (r: Option<u64>)
        ensures
            ({
                let m = old(self).balances();
                if m.contains_key(key@) && m[key@] >= delta {
                    r == Some((m[key@] - delta) as u64) && final(self).balances() == m.insert(key@, (m[key@] - delta) as u64)
                } else {
                    r is None && final(self).balances() == m
                }
            }),
            final(self).pending() == old(self).pending(),
            final(self).counters().writes == bump(old(self).counters().writes),
            final(self).counters().reads == old(self).counters().reads,
    {
        self.metrics.record_write();
        match dash_get(&self.balances, key) {
            Some(current) => {
                if current >= delta {
                    let _before = dash_fetch_sub(&mut self.balances, key, delta);
                    Some(current - delta)
                } else {
                    None
                }
            },
            None => None,
        }
    }

    /// Sets `key` (kept as 0 when new) to `new` when it holds `expected`, answering
    /// `Ok(new)`; otherwise answers `Err` with what it holds. Counts a write.
    pub fn compare_and_swap(&mut self, key: &str, expected: u64, new: u64) -> (r: Result<u64, u64>)
        ensures
            ({
                let m = old(self).balances();
                let cur = if m.contains_key(key@) { m[key@] } else { 0u64 };
                if cur == expected {
                    r == Ok::<u64, u64>(new) && final(self).balances() == m.insert(key@, new)
                } else {
                    r == Err::<u64, u64>(cur) && final(self).balances() == m.insert(key@, cur)
                }
            }),
            final(self).pending() == old(self).pending(),
            final(self).counters().writes == bump(old(self).counters().writes),
            final(self).counters().reads == old(self).counters().reads,
    {
        self.metrics.record_write();
        match dash_compare_exchange(&mut self.balances, key, expected, new) {
            Ok(_) => Ok(new),
            Err(current) => Err(current),
        }
    }

    /// Applies one queued write (see `apply_write`).
    fn process_write_operation(&mut self, operation: &WriteOperation)
        ensures
            final(self).balances() == apply_write(old(self).balances(), operation.key@, operation.value,
                operation.operation_type),
            final(self).pending() == old(self).pending(),
            final(self).counters() == old(self).counters(),
    {
        let key = operation.key.as_str();
        match operation.operation_type {
            WriteType::Assign => {
                dash_store(&mut self.balances, key, operation.value);
            },
            WriteType::Add => {
                let _before = dash_fetch_add(&mut self.balances, key, operation.value);
            },
            WriteType::Subtract => {
                let _before = dash_fetch_sub(&mut self.balances, key, operation.value);
            },
        }
    }

    /// The worker's step: applies the oldest queued write and answers true, or answers
    /// false when none is queued.
    pub fn process_next_write(&mut self) -> (r: bool)
        ensures
            r == (old(self).pending().len() > 0),
            r ==> final(self).pending() == old(self).pending().drop_first() && final(self).balances() == apply_write(
                old(self).balances(), old(self).pending()[0].0, old(self).pending()[0].1, old(self).pending()[0].2),
            !r ==> final(self).balances() == old(self).balances() && final(self).pending() == old(self).pending(),
            final(self).counters() == old(self).counters(),
    {
        match seg_pop(&mut self.write_queue) {
            Some(op) => {
                self.process_write_operation(&op);
                true
            },
            None => false,
        }
    }

    /// The counters.
    pub fn get_metrics(&self) -> (r: &LockFreeMetrics)
        ensures
            *r == self.counters(),
    {
        &self.metrics
    }

    /// The number of balances kept and of queued writes.
    pub fn get_cache_status(&self) -> (r: LockFreeCacheStatus)
        ensures
            r.entry_count == self.entry_count(),
            r.queue_size == self.pending().len(),
    {
        LockFreeCacheStatus { entry_count: dash_len(&self.balances), queue_size: seg_len(&self.write_queue) }
    }
}

/// The key of the balance of `asset` of `user_id`: "<user>:<asset>".
pub open spec fn balance_key(user_id: Seq<char>, asset: Seq<char>) -> Seq<char> {
    user_id + ":"@ + asset
}

/// Balances of users per asset, kept in a lock-free cache under `balance_key`.
pub struct LockFreeBalanceCache {
    cache: LockFreeCache,
}

impl LockFreeBalanceCache {
    /// The cache underneath.
    pub closed spec fn inner(&self) -> LockFreeCache {
        self.cache
    }

    /// An empty cache.
    pub fn new() -> (r: Self)
        ensures
            r.inner().balances() == Map::<Seq<char>, u64>::empty(),
            r.inner().pending().len() == 0,
    {
        LockFreeBalanceCache { cache: LockFreeCache::new() }
    }

    /// The balance of `asset` of `user_id`, if kept.
    pub fn get_balance(&mut self, user_id: &str, asset: &str) -> (r: Option<u64>)
        requires
        ensures
            ({
                let k = balance_key(user_id@, asset@);
                let m = old(self).inner().balances();
                r == (if m.contains_key(k) { Some(m[k]) } else { None::<u64> })
            }),
            final(self).inner().balances() == old(self).inner().balances(),
            final(self).inner().pending() == old(self).inner().pending(),
    {
        let key = join3(user_id, ":", asset);
        self.cache.get(key.as_str())
    }

    /// Sets the balance of `asset` of `user_id` to `amount` (see `set`).
    pub fn set_balance(&mut self, user_id: &str, asset: &str, amount: u64)
        requires
        ensures
            final(self).inner().balances() == apply_writes(old(self).inner().balances(),
                old(self).inner().pending().push((balance_key(user_id@, asset@), amount, WriteType::Assign))),
            old(self).inner().pending().len() == 0 ==> final(self).inner().balances() == old(self).inner().balances().insert(
                balance_key(user_id@, asset@), amount),
            final(self).inner().pending().len() == 0,
    {
        let key = join3(user_id, ":", asset);
        self.cache.set(key.as_str(), amount);
    }

    /// Adds `delta` to the balance of `asset` of `user_id` at once (see `add`).
    pub fn add_balance(&mut self, user_id: &str, asset: &str, delta: u64) -> (r: u64)
        requires
            old(self).inner().balances().contains_key(balance_key(user_id@, asset@)) ==> old(self).inner().balances()[balance_key(user_id@, asset@)] + delta <= u64::MAX,
        ensures
            ({
                let k = balance_key(user_id@, asset@);
                let m = old(self).inner().balances();
                &&& r == (if m.contains_key(k) { m[k] } else { 0 }) + delta
                &&& final(self).inner().balances() == m.insert(k, r)
            }),
            final(self).inner().pending() == old(self).inner().pending(),
    {
        let key = join3(user_id, ":", asset);
        self.cache.add(key.as_str(), delta)
    }

    /// Takes `delta` off the balance of `asset` of `user_id` when it holds that much
    /// (see `subtract`).
    pub fn subtract_balance(&mut self, user_id: &str, asset: &str, delta: u64) -> (r: Option<u64>)
        requires
        ensures
            ({
                let k = balance_key(user_id@, asset@);
                let m = old(self).inner().balances();
                if m.contains_key(k) && m[k] >= delta {
                    r == Some((m[k] - delta) as u64) && final(self).inner().balances() == m.insert(k, (m[k] - delta) as u64)
                } else {
                    r is None && final(self).inner().balances() == m
                }
            }),
            final(self).inner().pending() == old(self).inner().pending(),
    {
        let key = join3(user_id, ":", asset);
        self.cache.subtract(key.as_str(), delta)
    }

    /// Compare-and-swap on the balance of `asset` of `user_id` (see `compare_and_swap`).
    pub fn compare_and_swap_balance(&mut self, user_id: &str, asset: &str, expected: u64, new: u64)
        -> (r: Result<u64, u64>)
        requires
        ensures
            ({
                let k = balance_key(user_id@, asset@);
                let m = old(self).inner().balances();
                let cur = if m.contains_key(k) { m[k] } else { 0u64 };
                if cur == expected {
                    r == Ok::<u64, u64>(new) && final(self).inner().balances() == m.insert(k, new)
                } else {
                    r == Err::<u64, u64>(cur) && final(self).inner().balances() == m.insert(k, cur)
                }
            }),
            final(self).inner().pending() == old(self).inner().pending(),
    {
        let key = join3(user_id, ":", asset);
        self.cache.compare_and_swap(key.as_str(), expected, new)
    }

    /// The worker's step of the cache underneath (see `process_next_write`).
    pub fn process_next_write(&mut self) -> (r: bool)
        requires
        ensures
            r == (old(self).inner().pending().len() > 0),
            r ==> final(self).inner().pending() == old(self).inner().pending().drop_first()
                && final(self).inner().balances() == apply_write(old(self).inner().balances(),
                old(self).inner().pending()[0].0, old(self).inner().pending()[0].1, old(self).inner().pending()[0].2),
            !r ==> final(self).inner().balances() == old(self).inner().balances(),
    {
        self.cache.process_next_write()
    }

    /// The counters of the cache underneath.
    pub fn get_metrics(&self) -> (r: &LockFreeMetrics)
        ensures
            *r == self.inner().counters(),
    {
        self.cache.get_metrics()
    }
}

/// The partition of `key` among `count` partitions: its hash modulo the count (the hash
/// is taken as a machine word, as the cast to `usize` does).
pub open spec fn partition_of(key: Seq<char>, count: usize) -> int {
    ((default_hash_of_str(key) as usize) % count) as int
}

/// Balances spread over partitions (one `dashmap::DashMap` each) by the hash of their
/// key.
pub struct NUMAOptimizedCache {
    partitions: Vec<dashmap::DashMap<String, std::sync::atomic::AtomicU64>>,
    partition_count: usize,
}

impl NUMAOptimizedCache {
    /// The number of partitions.
    pub closed spec fn count(&self) -> usize {
        self.partition_count
    }

    /// The balance of `key`, looked up in its partition.
    pub closed spec fn value(&self, key: Seq<char>) -> Option<u64> {
        let m = dash_values(self.partitions@[partition_of(key, self.partition_count)]);
        if m.contains_key(key) { Some(m[key]) } else { None }
    }

    /// One partition per count.
    pub closed spec fn wf(&self) -> bool {
        self.partitions@.len() == self.partition_count
    }

    /// `partition_count` empty partitions.
    pub fn new(partition_count: usize) -> (r: Self)
        ensures
            r.wf(),
            r.count() == partition_count,
            partition_count > 0 ==> forall|k: Seq<char>| r.value(k) is None,
    {
        let mut partitions: Vec<dashmap::DashMap<String, std::sync::atomic::AtomicU64>> = Vec::new();
        let mut i: usize = 0;
        while i < partition_count
            invariant
                i <= partition_count,
                partitions@.len() == i,
                forall|p: int| 0 <= p < i ==> dash_values(#[trigger] partitions@[p]) == no_balances(),
            decreases partition_count - i,
        {
            partitions.push(dash_new());
            i = i + 1;
        }
        NUMAOptimizedCache { partitions, partition_count }
    }

    fn get_partition(&self, key: &str) -> (r: usize)
        requires
            self.count() > 0,
        ensures
            r == partition_of(key@, self.count()),
            r < self.count(),
    {
        (hash_str(key) as usize) % self.partition_count
    }

    /// The balance of `key`, if kept.
    pub fn get(&self, key: &str) -> (r: Option<u64>)
        requires
            self.wf(),
            self.count() > 0,
        ensures
            r == self.value(key@),
    {
        let p = self.get_partition(key);
        dash_get(&self.partitions[p], key)
    }

    /// Sets `key` to `value`.
    pub fn set(&mut self, key: &str, value: u64)
        requires
            old(self).wf(),
            old(self).count() > 0,
        ensures
            final(self).wf(),
            final(self).count() == old(self).count(),
            final(self).value(key@) == Some(value),
            forall|k: Seq<char>| k != key@ ==> final(self).value(k) == old(self).value(k),
    {
        let p = self.get_partition(key);
        let mut part = self.partitions.remove(p);
        dash_store(&mut part, key, value);
        self.partitions.insert(p, part);
        proof {
            assert forall|k: Seq<char>| k != key@ implies self.value(k) == old(self).value(k) by {
                let q = partition_of(k, self.partition_count);
                if q != p as int {
                    assert(self.partitions@[q] == old(self).partitions@[q]);
                }
            }
        }
    }

    /// Adds `delta` to `key` (from 0 for a new key) and answers the new balance.
    pub fn add(&mut self, key: &str, delta: u64) -> (r: u64)
        requires
            old(self).wf(),
            old(self).count() > 0,
            old(self).value(key@) matches Some(v) ==> v + delta <= u64::MAX,
        ensures
            final(self).wf(),
            final(self).count() == old(self).count(),
            r == (match old(self).value(key@) { Some(v) => v, None => 0u64 }) + delta,
            final(self).value(key@) == Some(r),
            forall|k: Seq<char>| k != key@ ==> final(self).value(k) == old(self).value(k),
    {
        let p = self.get_partition(key);
        let mut part = self.partitions.remove(p);
        let before = dash_fetch_add(&mut part, key, delta);
        self.partitions.insert(p, part);
        proof {
            assert forall|k: Seq<char>| k != key@ implies self.value(k) == old(self).value(k) by {
                let q = partition_of(k, self.partition_count);
                if q != p as int {
                    assert(self.partitions@[q] == old(self).partitions@[q]);
                }
            }
        }
        before + delta
    }
}

/// Taking off what was just added restores the balance: for a kept key, adding
/// `delta` and then subtracting it succeeds and leaves the balances as they were.
pub proof fn law_subtract_undoes_add(m: Map<Seq<char>, u64>, key: Seq<char>, delta: u64)
    requires
        m.contains_key(key),
        m[key] + delta <= u64::MAX,
    ensures
        ({
            let m1 = m.insert(key, (m[key] + delta) as u64);
            &&& m1.contains_key(key) && m1[key] >= delta
            &&& m1.insert(key, (m1[key] - delta) as u64) == m
        }),
{
    let m1 = m.insert(key, (m[key] + delta) as u64);
    assert(m1.insert(key, (m1[key] - delta) as u64) =~= m);
}

/// A failed compare-and-swap on a kept key leaves the balances as they were, and a
/// successful one leaves the new value.
pub proof fn law_swap_outcomes(m: Map<Seq<char>, u64>, key: Seq<char>, expected: u64, new: u64)
    requires
        m.contains_key(key),
    ensures
        m[key] != expected ==> m.insert(key, m[key]) == m,
        m[key] == expected ==> m.insert(key, new)[key] == new,
{
    assert(m.insert(key, m[key]) =~= m);
}

/// A queued set, once applied, leaves the value set, whatever was there.
pub proof fn law_applied_set_holds(m: Map<Seq<char>, u64>, key: Seq<char>, value: u64)
    ensures
        apply_write(m, key, value, WriteType::Assign).contains_key(key),
        apply_write(m, key, value, WriteType::Assign)[key] == value,
{
}

} // verus!
