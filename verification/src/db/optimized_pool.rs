//! The bookkeeping of the connection pools: the rotation over the read pools, the
//! status of the pools, and the rows written for executions.

use vstd::prelude::*;
use crate::db::models::ExecutionRecord;
use crate::model::ExecutionReport;
use crate::mq::kafka_producer::{side_name, side_to_string};

verus! {

/// The sizes of the pools.
#[derive(Debug)]
pub struct PoolStatus {
    pub write_pool_size: u32,
    pub read_pool_sizes: Vec<u32>,
    pub total_connections: u32,
}

/// The sum of the sizes.
pub open spec fn sum_sizes(s: Seq<u32>) -> nat
    decreases s.len(),
{
    if s.len() == 0 { 0 } else { sum_sizes(s.drop_last()) + s.last() as nat }
}

proof fn lemma_sum_prefix(s: Seq<u32>, k: int)
    requires
        0 <= k <= s.len(),
    ensures
        sum_sizes(s.take(k)) <= sum_sizes(s),
    decreases s.len() - k,
{
    if k < s.len() {
        lemma_sum_prefix(s, k + 1);
        assert(s.take(k + 1).drop_last() =~= s.take(k));
    } else {
        assert(s.take(k) =~= s);
    }
}

/// The status of the pools: their sizes and, in all, the write pool's size plus the
/// read pools' sizes.
pub fn get_pool_status(write_pool_size: u32, read_pool_sizes: Vec<u32>) -> (r: PoolStatus)
    requires
        write_pool_size + sum_sizes(read_pool_sizes@) <= u32::MAX,
    ensures
        r.write_pool_size == write_pool_size,
        r.read_pool_sizes@ == read_pool_sizes@,
        r.total_connections == write_pool_size + sum_sizes(read_pool_sizes@),
{
    let mut total: u32 = write_pool_size;
    let mut i: usize = 0;
    while i < read_pool_sizes.len()
        invariant
            i <= read_pool_sizes.len(),
            total == write_pool_size + sum_sizes(read_pool_sizes@.take(i as int)),
            write_pool_size + sum_sizes(read_pool_sizes@) <= u32::MAX,
        decreases read_pool_sizes.len() - i,
    {
        proof {
            assert(read_pool_sizes@.take(i + 1).drop_last() =~= read_pool_sizes@.take(i as int));
            lemma_sum_prefix(read_pool_sizes@, i + 1);
        }
        total = total + read_pool_sizes[i];
        i = i + 1;
    }
    proof {
        assert(read_pool_sizes@.take(read_pool_sizes.len() as int) =~= read_pool_sizes@);
    }
    PoolStatus { write_pool_size, read_pool_sizes, total_connections: total }
}

/// The rotation over the read pools: each pick takes the next pool, round robin.
pub struct ReadPoolRotation {
    read_pool_index: usize,
    read_pools: usize,
}

impl ReadPoolRotation {
    /// The picks made so far (modulo the machine word).
    pub closed spec fn picks(&self) -> usize {
        self.read_pool_index
    }

    /// The number of read pools.
    pub closed spec fn pools(&self) -> usize {
        self.read_pools
    }

    /// A rotation over `read_pools` pools that picked none.
    pub fn new(read_pools: usize) -> (r: Self)
        ensures
            r.picks() == 0,
            r.pools() == read_pools,
    {
        ReadPoolRotation { read_pool_index: 0, read_pools }
    }

    /// The pool of the next read: the count of picks modulo the number of pools; the
    /// count goes up by one, wrapping as the atomic counter does.
    pub fn get_read_pool(&mut self) -> (r: usize)
        requires
            old(self).pools() > 0,
        ensures
            r == old(self).picks() % old(self).pools(),
            r < old(self).pools(),
            final(self).picks() == old(self).picks().wrapping_add(1),
            final(self).pools() == old(self).pools(),
    {
        let index = self.read_pool_index;
        self.read_pool_index = self.read_pool_index.wrapping_add(1);
        index % self.read_pools
    }
}

/// The row of an execution report: its id, its order as taker and the other order as
/// maker, symbol, side name, price and quantity, no fees, and its time; the numbers
/// are converted as `as i64` does.
pub fn execution_record_of(execution: &ExecutionReport) -> (r: ExecutionRecord)
    ensures
        r.exec_id == execution.execution_id,
        r.taker_order_id == execution.order_id,
        r.maker_order_id == execution.counterparty_id,
        r.symbol == execution.symbol,
        r.side@ == side_name(execution.side),
        r.price == execution.price as i64,
        r.quantity == execution.quantity as i64,
        r.taker_fee == 0,
        r.maker_fee == 0,
        r.transaction_time == execution.timestamp as i64,
{
    ExecutionRecord {
        exec_id: execution.execution_id.clone(),
        taker_order_id: execution.order_id.clone(),
        maker_order_id: execution.counterparty_id.clone(),
        symbol: execution.symbol.clone(),
        side: side_to_string(&execution.side),
        price: execution.price as i64,
        quantity: execution.quantity as i64,
        taker_fee: 0,
        maker_fee: 0,
        transaction_time: execution.timestamp as i64,
    }
}

/// The rows of a batch of executions, in order.
pub fn batch_insert_executions(executions: &Vec<ExecutionReport>) -> (r: Vec<ExecutionRecord>)
    ensures
        r.len() == executions.len(),
        forall|i: int| 0 <= i < r.len() ==> {
            &&& (#[trigger] r@[i]).exec_id == executions@[i].execution_id
            &&& r@[i].taker_order_id == executions@[i].order_id
            &&& r@[i].maker_order_id == executions@[i].counterparty_id
            &&& r@[i].price == executions@[i].price as i64
            &&& r@[i].quantity == executions@[i].quantity as i64
        },
{
    let mut out: Vec<ExecutionRecord> = Vec::new();
    let mut i: usize = 0;
    while i < executions.len()
        invariant
            i <= executions.len(),
            out.len() == i,
            forall|j: int| 0 <= j < i ==> {
                &&& (#[trigger] out@[j]).exec_id == executions@[j].execution_id
                &&& out@[j].taker_order_id == executions@[j].order_id
                &&& out@[j].maker_order_id == executions@[j].counterparty_id
                &&& out@[j].price == executions@[j].price as i64
                &&& out@[j].quantity == executions@[j].quantity as i64
            },
        decreases executions.len() - i,
    {
        out.push(execution_record_of(&executions[i]));
        i = i + 1;
    }
    out
}

} // verus!
