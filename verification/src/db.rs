//! The database side: the records stored, the batching of execution commits, and the
//! bookkeeping of the connection pools.

pub mod models;
pub mod async_commit;
pub mod optimized_pool;
