//! Performance counters of the caches, the database pool and the fast matching path.
//! Each counter wraps around at 2^64, as the atomic counters of a concurrent build do.

use vstd::prelude::*;
use crate::outside::instant_now;

verus! {

/// `x + 1`, wrapping around at 2^64.
pub open spec fn bump(x: u64) -> u64 {
    if x == u64::MAX {
        0
    } else {
        (x + 1) as u64
    }
}

/// `x + y`, wrapping around at 2^64.
pub open spec fn wrap_add(x: u64, y: u64) -> u64 {
    ((x + y) % 0x1_0000_0000_0000_0000) as u64
}

fn inc(x: u64) -> (r: u64)
    ensures
        r == bump(x),
{
    x.wrapping_add(1)
}

/// Counters of the lock-free cache.
#[derive(Debug)]
pub struct LockFreeMetrics {
    pub reads: u64,
    pub writes: u64,
    pub cache_hits: u64,
    pub cache_misses: u64,
    pub queue_size: usize,
    pub start_time: std::time::Instant,
}

impl LockFreeMetrics {
    /// All counters at zero, started now.
    pub fn new() -> (r: Self)
        ensures
            r.reads == 0 && r.writes == 0 && r.cache_hits == 0 && r.cache_misses == 0 && r.queue_size == 0,
    {
        LockFreeMetrics { reads: 0, writes: 0, cache_hits: 0, cache_misses: 0, queue_size: 0, start_time: instant_now() }
    }

    /// Counts a read.
    pub fn record_read(&mut self)
        ensures
            *final(self) == (LockFreeMetrics { reads: bump(old(self).reads), ..*old(self) }),
    {
        self.reads = inc(self.reads);
    }

    /// Counts a write.
    pub fn record_write(&mut self)
        ensures
            *final(self) == (LockFreeMetrics { writes: bump(old(self).writes), ..*old(self) }),
    {
        self.writes = inc(self.writes);
    }

    /// Counts a hit.
    pub fn record_hit(&mut self)
        ensures
            *final(self) == (LockFreeMetrics { cache_hits: bump(old(self).cache_hits), ..*old(self) }),
    {
        self.cache_hits = inc(self.cache_hits);
    }

    /// Counts a miss.
    pub fn record_miss(&mut self)
        ensures
            *final(self) == (LockFreeMetrics { cache_misses: bump(old(self).cache_misses), ..*old(self) }),
    {
        self.cache_misses = inc(self.cache_misses);
    }

    /// Records the current queue size.
    pub fn update_queue_size(&mut self, size: usize)
        ensures
            *final(self) == (LockFreeMetrics { queue_size: size, ..*old(self) }),
    {
        self.queue_size = size;
    }
}

/// Counters of the three-level write-behind cache.
#[derive(Debug)]
pub struct CacheMetrics {
    pub l1_hits: u64,
    pub l1_misses: u64,
    pub l2_hits: u64,
    pub l2_misses: u64,
    pub l3_hits: u64,
    pub l3_misses: u64,
    pub sync_operations: u64,
    pub sync_errors: u64,
    pub start_time: std::time::Instant,
}

impl CacheMetrics {
    /// All counters at zero, started now.
    pub fn new() -> (r: Self)
        ensures
            r.l1_hits == 0 && r.l1_misses == 0 && r.l2_hits == 0 && r.l2_misses == 0,
            r.l3_hits == 0 && r.l3_misses == 0 && r.sync_operations == 0 && r.sync_errors == 0,
    {
        CacheMetrics {
            l1_hits: 0,
            l1_misses: 0,
            l2_hits: 0,
            l2_misses: 0,
            l3_hits: 0,
            l3_misses: 0,
            sync_operations: 0,
            sync_errors: 0,
            start_time: instant_now(),
        }
    }

    /// Counts a hit in the in-process cache.
    pub fn record_l1_hit(&mut self)
        ensures
            *final(self) == (CacheMetrics { l1_hits: bump(old(self).l1_hits), ..*old(self) }),
    {
        self.l1_hits = inc(self.l1_hits);
    }

    /// Counts a miss in the in-process cache.
    pub fn record_l1_miss(&mut self)
        ensures
            *final(self) == (CacheMetrics { l1_misses: bump(old(self).l1_misses), ..*old(self) }),
    {
        self.l1_misses = inc(self.l1_misses);
    }

    /// Counts a hit in the shared cache.
    pub fn record_l2_hit(&mut self)
        ensures
            *final(self) == (CacheMetrics { l2_hits: bump(old(self).l2_hits), ..*old(self) }),
    {
        self.l2_hits = inc(self.l2_hits);
    }

    /// Counts a miss in the shared cache.
    pub fn record_l2_miss(&mut self)
        ensures
            *final(self) == (CacheMetrics { l2_misses: bump(old(self).l2_misses), ..*old(self) }),
    {
        self.l2_misses = inc(self.l2_misses);
    }

    /// Counts a hit in the database.
    pub fn record_l3_hit(&mut self)
        ensures
            *final(self) == (CacheMetrics { l3_hits: bump(old(self).l3_hits), ..*old(self) }),
    {
        self.l3_hits = inc(self.l3_hits);
    }

    /// Counts a miss in the database.
    pub fn record_l3_miss(&mut self)
        ensures
            *final(self) == (CacheMetrics { l3_misses: bump(old(self).l3_misses), ..*old(self) }),
    {
        self.l3_misses = inc(self.l3_misses);
    }

    /// Counts a successful synchronisation.
    pub fn record_sync_success(&mut self)
        ensures
            *final(self) == (CacheMetrics { sync_operations: bump(old(self).sync_operations), ..*old(self) }),
    {
        self.sync_operations = inc(self.sync_operations);
    }

    /// Counts a failed synchronisation.
    pub fn record_sync_error(&mut self)
        ensures
            *final(self) == (CacheMetrics { sync_errors: bump(old(self).sync_errors), ..*old(self) }),
    {
        self.sync_errors = inc(self.sync_errors);
    }
}

/// Counters of the database connection pool.
#[derive(Debug)]
pub struct PoolMetrics {
    pub total_connections: u64,
    pub active_connections: u64,
    pub idle_connections: u64,
    pub connection_errors: u64,
    pub query_count: u64,
    pub avg_query_time_ms: u64,
    pub start_time: std::time::Instant,
}

impl PoolMetrics {
    /// All counters at zero, started now.
    pub fn new() -> (r: Self)
        ensures
            r.total_connections == 0 && r.active_connections == 0 && r.idle_connections == 0,
            r.connection_errors == 0 && r.query_count == 0 && r.avg_query_time_ms == 0,
    {
        PoolMetrics {
            total_connections: 0,
            active_connections: 0,
            idle_connections: 0,
            connection_errors: 0,
            query_count: 0,
            avg_query_time_ms: 0,
            start_time: instant_now(),
        }
    }

    /// Counts a query that took `duration_ms`; the average becomes the mean of the old
    /// average and this duration (rounded down).
    pub fn record_query(&mut self, duration_ms: u64)
        requires
            old(self).avg_query_time_ms + duration_ms <= u64::MAX,
        ensures
            *final(self) == (PoolMetrics {
                query_count: bump(old(self).query_count),
                avg_query_time_ms: ((old(self).avg_query_time_ms + duration_ms) / 2) as u64,
                ..*old(self)
            }),
    {
        self.query_count = inc(self.query_count);
        self.avg_query_time_ms = (self.avg_query_time_ms + duration_ms) / 2;
    }

    /// Counts a connection error.
    pub fn record_connection_error(&mut self)
        ensures
            *final(self) == (PoolMetrics { connection_errors: bump(old(self).connection_errors), ..*old(self) }),
    {
        self.connection_errors = inc(self.connection_errors);
    }
}

/// Counters of the in-memory matching path.
#[derive(Debug)]
pub struct PerformanceMetrics {
    pub total_executions: u64,
    pub total_latency_ns: u64,
    pub memory_executions: u64,
    pub db_executions: u64,
    pub start_time: std::time::Instant,
}

impl PerformanceMetrics {
    /// All counters at zero, started now.
    pub fn new() -> (r: Self)
        ensures
            r.total_executions == 0 && r.total_latency_ns == 0 && r.memory_executions == 0 && r.db_executions == 0,
    {
        PerformanceMetrics {
            total_executions: 0,
            total_latency_ns: 0,
            memory_executions: 0,
            db_executions: 0,
            start_time: instant_now(),
        }
    }

    /// Counts an execution served from memory that took `latency_ns`.
    pub fn record_execution(&mut self, latency_ns: u64)
        ensures
            *final(self) == (PerformanceMetrics {
                total_executions: bump(old(self).total_executions),
                total_latency_ns: wrap_add(old(self).total_latency_ns, latency_ns),
                memory_executions: bump(old(self).memory_executions),
                ..*old(self)
            }),
    {
        self.total_executions = inc(self.total_executions);
        self.total_latency_ns = self.total_latency_ns.wrapping_add(latency_ns);
        self.memory_executions = inc(self.memory_executions);
    }
}

/// Size figures of the lock-free cache.
#[derive(Debug, Clone, Copy)]
pub struct LockFreeCacheStatus {
    pub entry_count: usize,
    pub queue_size: usize,
}

} // verus!
