//! Caches of balances: the lock-free cache with its queued writes, its partitioned
//! variant, and the write-behind cache that keeps a first level in memory and writes
//! changed keys through to the slower levels later.

pub mod lockfree_cache;

pub mod write_behind_cache;
