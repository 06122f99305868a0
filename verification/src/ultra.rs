//! The memory-only matching engine: a balance check, matching on the books, one report
//! for the whole order, balance updates and a queue of executions to persist.

use vstd::prelude::*;
use vstd::hash_map::StringHashMap;
use crate::model::{Order, Side, ExecutionReport, OrderBookSnapshot};
use crate::order_book::{OrderBook, knows_more};
use crate::matching::{Fill, book_after_order, filled_total, law_quantity_conservation, lemma_match_run, index_after_order};
use crate::engine::{MatchingEngine, book_pos, rest_fits, store_after_order, reports_for, lemma_book_pos, order_rests};
use crate::metrics::PerformanceMetrics;
use crate::outside::{instant_now, nanos_since, new_uuid_string, unix_time_nanos, unix_time_secs};

verus! {

/// An execution waiting to be persisted.
#[derive(Debug)]
pub struct PersistenceTask {
    pub execution: ExecutionReport,
    pub timestamp: u64,
    pub user_id: String,
    pub balance_delta: i64,
}

/// Why an order was not executed.
#[derive(Clone, Copy, Debug, PartialEq, Eq, Structural)]
pub enum ExecutionError {
    InsufficientBalance,
    UnsupportedSymbol,
    MatchingFailed,
}

/// The message of an error.
pub open spec fn error_text(e: ExecutionError) -> Seq<char> {
    match e {
        ExecutionError::InsufficientBalance => "잔고 부족"@,
        ExecutionError::UnsupportedSymbol => "지원하지 않는 심볼"@,
        ExecutionError::MatchingFailed => "매칭 실패"@,
    }
}

impl ExecutionError {
    /// The message of the error.
    pub fn message(&self) -> (r: String)
        ensures
            r@ == error_text(*self),
    {
        match self {
            ExecutionError::InsufficientBalance => String::from_str("잔고 부족"),
            ExecutionError::UnsupportedSymbol => String::from_str("지원하지 않는 심볼"),
            ExecutionError::MatchingFailed => String::from_str("매칭 실패"),
        }
    }
}

/// A balance, 0 for an unknown user.
pub open spec fn balance_of(m: Map<Seq<char>, u64>, user: Seq<char>) -> u64 {
    if m.contains_key(user) { m[user] } else { 0 }
}

/// `v - d`, wrapping around below zero.
pub open spec fn wrap_sub(v: u64, d: u64) -> u64 {
    if v >= d { (v - d) as u64 } else { (v + 0x1_0000_0000_0000_0000 - d) as u64 }
}

/// `v + d`, wrapping around above the 64-bit range.
pub open spec fn wrap_add(v: u64, d: u64) -> u64 {
    if v + d <= u64::MAX { (v + d) as u64 } else { (v + d - 0x1_0000_0000_0000_0000) as u64 }
}

/// The amount that moves for an execution: price times quantity for a buy, the quantity
/// for a sell.
pub open spec fn moved(e: ExecutionReport) -> u64 {
    if e.side == Side::Buy { (e.price * e.quantity) as u64 } else { e.quantity }
}

/// The balances after an execution: the account named by the order id pays the amount,
/// the account named by the counterparty receives it (each only if it exists).
pub open spec fn balances_after(m: Map<Seq<char>, u64>, e: ExecutionReport) -> Map<Seq<char>, u64> {
    let a = moved(e);
    let m1 = if m.contains_key(e.order_id@) {
        m.insert(e.order_id@, wrap_sub(m[e.order_id@], a))
    } else {
        m
    };
    if m1.contains_key(e.counterparty_id@) {
        m1.insert(e.counterparty_id@, wrap_add(m1[e.counterparty_id@], a))
    } else {
        m1
    }
}

/// The taker after matching `order` in the book that trades its symbol.
pub open spec fn taker_after(books: Seq<OrderBook>, order: Order) -> Order {
    let b = books[book_pos(books, order.symbol@) as int];
    book_after_order(b.bids_view(), b.asks_view(), order).2
}

/// The books and store after `order` was processed by the engine.
pub open spec fn engine_after(
    books0: Seq<OrderBook>,
    store0: Map<Seq<char>, Order>,
    books1: Seq<OrderBook>,
    store1: Map<Seq<char>, Order>,
    order: Order,
) -> bool {
    let bi = book_pos(books0, order.symbol@) as int;
    let b = books0[bi];
    let (b2, a2, t, fills) = book_after_order(b.bids_view(), b.asks_view(), order);
    &&& books1.len() == books0.len()
    &&& forall|j: int| 0 <= j < books0.len() && j != bi ==> books1[j] == books0[j]
    &&& books1[bi].symbol == b.symbol
    &&& books1[bi].bids_view() == b2
    &&& books1[bi].asks_view() == a2
    &&& books1[bi].orders@ == index_after_order(b.orders@, order, t, fills)
    &&& order_rests(order, t) && order.side == Side::Buy ==> knows_more(b.bids@, books1[bi].bids@, order.price, order.id@)
    &&& order_rests(order, t) && order.side == Side::Sell ==> knows_more(b.asks@, books1[bi].asks@, order.price, order.id@)
    &&& !order_rests(order, t) && order.side == Side::Buy ==> books1[bi].bids@ == b.bids@
    &&& !order_rests(order, t) && order.side == Side::Sell ==> books1[bi].asks@ == b.asks@
    &&& store1 == store_after_order(store0, order, t, fills)
}

/// The report for a whole order: what was executed of it and what remains, at its own
/// price, against the system.
pub open spec fn order_report(r: ExecutionReport, order: Order, t: Order) -> bool {
    &&& r.order_id == order.id
    &&& r.symbol == order.symbol
    &&& r.side == order.side
    &&& r.price == order.price
    &&& r.quantity == order.quantity - t.remaining_quantity
    &&& r.remaining_quantity == t.remaining_quantity
    &&& r.counterparty_id@ == "system"@
    &&& !r.is_maker
}

pub proof fn lemma_filled_total_push(s: Seq<Fill>, f: Fill)
    ensures
        filled_total(s.push(f)) == filled_total(s) + f.2,
    decreases s.len(),
{
    let t = s.push(f);
    assert(t.len() > 0);
    assert(filled_total(t) == t[0].2 as nat + filled_total(t.drop_first()));
    if s.len() > 0 {
        lemma_filled_total_push(s.drop_first(), f);
        assert(t.drop_first() =~= s.drop_first().push(f));
        assert(t[0] == s[0]);
        assert(filled_total(s) == s[0].2 as nat + filled_total(s.drop_first()));
    } else {
        assert(t.drop_first() =~= Seq::<Fill>::empty());
        assert(t[0] == f);
        assert(filled_total(t.drop_first()) == 0);
    }
}

pub proof fn lemma_filled_total_prefix(s: Seq<Fill>, i: int)
    requires
        0 <= i <= s.len(),
    ensures
        filled_total(s.take(i)) <= filled_total(s),
    decreases s.len() - i,
{
    if i < s.len() {
        lemma_filled_total_prefix(s, i + 1);
        assert(s.take(i).push(s[i]) =~= s.take(i + 1));
        lemma_filled_total_push(s.take(i), s[i]);
    } else {
        assert(s.take(i) =~= s);
    }
}

/// The memory-only engine: the matching engine, balances by user, the executions
/// waiting to be persisted, and the performance counters.
pub struct UltraFastMatchingEngine {
    engine: MatchingEngine,
    balances: StringHashMap<u64>,
    persistence_queue: Vec<PersistenceTask>,
    metrics: PerformanceMetrics,
}

impl UltraFastMatchingEngine {
    /// The matching engine inside.
    pub closed spec fn counters(&self) -> PerformanceMetrics {
        self.metrics
    }

    /// The matching engine.
    pub closed spec fn engine(&self) -> &MatchingEngine {
        &self.engine
    }

    /// The balances by user.
    pub closed spec fn balances(&self) -> Map<Seq<char>, u64> {
        self.balances@
    }

    /// The executions waiting to be persisted, oldest first.
    pub closed spec fn pending(&self) -> Seq<PersistenceTask> {
        self.persistence_queue@
    }

    /// An engine with a book for each symbol, users "user1" and "user2" holding
    /// 50 000 000 000 each, nothing to persist.
    pub fn new(symbols: Vec<String>) -> (r: Self)
        ensures
            r.engine().wf(),
            r.engine().store() == Map::<Seq<char>, Order>::empty(),
            forall|i: int| 0 <= i < symbols@.len() ==> book_pos(r.engine().books(), (#[trigger] symbols@[i])@)
                < r.engine().books().len(),
            r.balances() == Map::<Seq<char>, u64>::empty().insert("user1"@, 50_000_000_000u64).insert(
                "user2"@,
                50_000_000_000u64,
            ),
            r.pending().len() == 0,
    {
        let mut balances = StringHashMap::new();
        balances.insert(String::from_str("user1"), 50_000_000_000u64);
        balances.insert(String::from_str("user2"), 50_000_000_000u64);
        UltraFastMatchingEngine {
            engine: MatchingEngine::new(symbols),
            balances,
            persistence_queue: Vec::new(),
            metrics: PerformanceMetrics::new(),
        }
    }

    /// The balance of a user, 0 for an unknown one.
    pub fn get_balance(&self, user_id: &str) -> (r: u64)
        ensures
            r == balance_of(self.balances(), user_id@),
    {
        match self.balances.get(user_id) {
            Some(b) => *b,
            None => 0,
        }
    }

    fn update_balances(&mut self, e: &ExecutionReport)
        requires
            e.side == Side::Buy ==> e.price * e.quantity <= u64::MAX,
        ensures
            final(self).balances() == balances_after(old(self).balances(), *e),
            final(self).engine() == old(self).engine(),
            final(self).pending() == old(self).pending(),
    {
        let amount: u64 = match e.side {
            Side::Buy => e.price * e.quantity,
            Side::Sell => e.quantity,
        };
        match self.balances.get(e.order_id.as_str()) {
            Some(b) => {
                let v = (*b).wrapping_sub(amount);
                self.balances.insert(e.order_id.clone(), v);
            },
            None => {},
        }
        match self.balances.get(e.counterparty_id.as_str()) {
            Some(b) => {
                let v = (*b).wrapping_add(amount);
                self.balances.insert(e.counterparty_id.clone(), v);
            },
            None => {},
        }
    }

    /// Executes an order in memory. The user named by the order's client id must hold
    /// at least price times quantity, else the order is refused for insufficient
    /// balance; an order for a symbol without a book is refused as unsupported. Either
    /// way nothing changes. Otherwise the engine processes the order as a new order, the
    /// answer is one report for the whole order (executed and remaining quantity, at the
    /// order's price, against "system"), the balances move by it, and the report waits
    /// to be persisted with the amount price times executed quantity, taken as a signed
    /// 64-bit number (wrapping past its largest value, as the cast does).
    pub fn ultra_fast_execution(&mut self, order: Order) -> (r: Result<ExecutionReport, ExecutionError>)
        requires
            old(self).engine().wf(),
            book_pos(old(self).engine().books(), order.symbol@) < old(self).engine().books().len()
                ==> rest_fits(
                old(self).engine().books()[book_pos(old(self).engine().books(), order.symbol@) as int],
                order,
            ),
            order.remaining_quantity <= order.quantity,
            order.price * order.quantity <= u64::MAX,
        ensures
            final(self).engine().wf(),
            ({
                let bal = balance_of(old(self).balances(), order.client_id@);
                let poor = bal < order.price * order.quantity;
                let unknown = book_pos(old(self).engine().books(), order.symbol@)
                    >= old(self).engine().books().len();
                &&& poor ==> r == Err::<ExecutionReport, ExecutionError>(ExecutionError::InsufficientBalance)
                &&& !poor && unknown ==> r == Err::<ExecutionReport, ExecutionError>(ExecutionError::UnsupportedSymbol)
                &&& r is Err ==> final(self).engine() == old(self).engine() && final(self).balances()
                    == old(self).balances() && final(self).pending() == old(self).pending()
                &&& (r is Ok) == (!poor && !unknown)
                &&& r matches Ok(rep) ==> {
                    let t = taker_after(old(self).engine().books(), order);
                    &&& engine_after(
                        old(self).engine().books(),
                        old(self).engine().store(),
                        final(self).engine().books(),
                        final(self).engine().store(),
                        order,
                    )
                    &&& order_report(rep, order, t)
                    &&& final(self).balances() == balances_after(old(self).balances(), rep)
                    &&& final(self).pending().len() == old(self).pending().len() + 1
                    &&& final(self).pending().drop_last() == old(self).pending()
                    &&& final(self).pending().last().execution == rep
                    &&& final(self).pending().last().user_id == rep.order_id
                    &&& final(self).pending().last().balance_delta == (rep.price * rep.quantity) as i64
                }
            }),
    {
        let start = instant_now();
        let balance = self.get_balance(order.client_id.as_str());
        if (balance as u128) < (order.price as u128) * (order.quantity as u128) {
            return Err(ExecutionError::InsufficientBalance);
        }
        let idx_known = match self.engine.get_order_book_snapshot(order.symbol.as_str(), 0) {
            Some(_) => true,
            None => false,
        };
        if !idx_known {
            return Err(ExecutionError::UnsupportedSymbol);
        }
        let ghost books0 = self.engine.books();
        let ghost bi = book_pos(books0, order.symbol@) as int;
        let ghost b = books0[bi];
        let ghost after = book_after_order(b.bids_view(), b.asks_view(), order);
        proof {
            lemma_book_pos(books0, order.symbol@);
            assert(crate::engine::book_ok(b));
            if order.side == Side::Buy {
                lemma_match_run(order, b.asks_view(), false);
                law_quantity_conservation(order, b.asks_view(), false);
            } else {
                lemma_match_run(order, b.bids_view(), true);
                law_quantity_conservation(order, b.bids_view(), true);
            }
        }
        let id = order.id.clone();
        let symbol = order.symbol.clone();
        let side = order.side;
        let price = order.price;
        let quantity = order.quantity;
        let remaining0 = order.remaining_quantity;
        let ghost o = order;
        let reps = self.engine.process_order(order);
        let ghost fills = after.3;
        let nfills = reps.len() / 2;
        let mut filled: u64 = 0;
        let mut i: usize = 0;
        while i < nfills
            invariant
                reports_for(reps@, o, fills),
                nfills == fills.len(),
                reps@.len() == 2 * nfills,
                i <= nfills,
                filled == filled_total(fills.take(i as int)),
                filled_total(fills) + after.2.remaining_quantity == remaining0,
            decreases nfills - i,
        {
            proof {
                lemma_filled_total_push(fills.take(i as int), fills[i as int]);
                assert(fills.take(i as int).push(fills[i as int]) =~= fills.take(i + 1));
                lemma_filled_total_prefix(fills, i + 1);
                assert(reps@[2 * i as int].quantity == fills[i as int].2);
            }
            assert(2 * i < reps.len());
            filled = filled + reps[2 * i].quantity;
            i = i + 1;
        }
        proof {
            assert(fills.take(nfills as int) =~= fills);
        }
        let remaining = remaining0 - filled;
        let rep = ExecutionReport {
            execution_id: new_uuid_string(),
            order_id: id,
            symbol,
            side,
            price,
            quantity: quantity - remaining,
            remaining_quantity: remaining,
            timestamp: unix_time_secs(),
            counterparty_id: String::from_str("system"),
            is_maker: false,
        };
        proof {
            assert(rep.quantity <= quantity);
            assert(price * rep.quantity <= price * quantity) by (nonlinear_arith)
                requires
                    rep.quantity <= quantity,
            ;
        }
        self.update_balances(&rep);
        let amount: u64 = price * rep.quantity;
        let delta: i64 = amount as i64;
        let nanos = unix_time_nanos();
        let task = PersistenceTask {
            execution: rep.clone(),
            timestamp: (nanos % 0x1_0000_0000_0000_0000) as u64,
            user_id: rep.order_id.clone(),
            balance_delta: delta,
        };
        self.persistence_queue.push(task);
        let latency = nanos_since(&start);
        self.metrics.record_execution(latency);
        proof {
            let t = taker_after(old(self).engine().books(), o);
            assert(t == after.2);
            assert(order_report(rep, o, t));
            assert(engine_after(
                old(self).engine().books(),
                old(self).engine().store(),
                self.engine().books(),
                self.engine().store(),
                o,
            ));
            assert(self.balances() == balances_after(old(self).balances(), rep));
            assert(self.pending().last().balance_delta == (rep.price * rep.quantity) as i64);
            assert(self.pending().drop_last() == old(self).pending());
        }
        Ok(rep)
    }

    /// Takes up to `batch_size` executions to persist, oldest first.
    pub fn drain_persistence_queue(&mut self, batch_size: usize) -> (r: Vec<PersistenceTask>)
        ensures
            ({
                let n = if batch_size < old(self).pending().len() {
                    batch_size as int
                } else {
                    old(self).pending().len() as int
                };
                &&& r@ == old(self).pending().take(n)
                &&& final(self).pending() == old(self).pending().skip(n)
            }),
            final(self).engine() == old(self).engine(),
            final(self).balances() == old(self).balances(),
    {
        let n = if batch_size < self.persistence_queue.len() {
            batch_size
        } else {
            self.persistence_queue.len()
        };
        let mut all: Vec<PersistenceTask> = Vec::new();
        std::mem::swap(&mut all, &mut self.persistence_queue);
        let ghost q = all@;
        let mut rev: Vec<PersistenceTask> = Vec::new();
        while all.len() > 0
            invariant
                all@.len() + rev@.len() == q.len(),
                all@ == q.take(all@.len() as int),
                forall|j: int| 0 <= j < rev@.len() ==> rev@[j] == q[q.len() - 1 - j],
            decreases all@.len(),
        {
            let t = all.pop().unwrap();
            rev.push(t);
            proof {
                assert(all@ =~= q.take(all@.len() as int));
            }
        }
        let mut taken: Vec<PersistenceTask> = Vec::new();
        let mut rest: Vec<PersistenceTask> = Vec::new();
        let len = rev.len();
        let mut i: usize = 0;
        while i < len
            invariant
                len == q.len(),
                n <= len,
                i <= len,
                rev@.len() == len - i,
                forall|j: int| 0 <= j < len - i ==> rev@[j] == q[len - 1 - j],
                i <= n ==> taken@ == q.take(i as int) && rest@.len() == 0,
                i > n ==> taken@ == q.take(n as int) && rest@ == q.subrange(n as int, i as int),
            decreases len - i,
        {
            let t = rev.pop().unwrap();
            if i < n {
                taken.push(t);
                proof {
                    assert(q.take(i + 1) =~= q.take(i as int).push(q[i as int]));
                }
            } else {
                rest.push(t);
                proof {
                    assert(q.subrange(n as int, i + 1) =~= q.subrange(n as int, i as int).push(q[i as int]));
                    assert(q.subrange(n as int, n as int) =~= Seq::<PersistenceTask>::empty());
                }
            }
            i = i + 1;
        }
        proof {
            if n == len {
                assert(q.skip(n as int) =~= Seq::<PersistenceTask>::empty());
                assert(q.take(n as int) =~= q.take(i as int));
            } else {
                assert(q.subrange(n as int, len as int) =~= q.skip(n as int));
            }
        }
        self.persistence_queue = rest;
        taken
    }

    /// The performance counters.
    pub fn get_metrics(&self) -> (r: &PerformanceMetrics)
        ensures
            *r == self.counters(),
    {
        &self.metrics
    }

    /// The books.
    pub fn get_order_books(&self) -> (r: &Vec<OrderBook>)
        ensures
            r@ == self.engine().books(),
    {
        self.engine.get_order_books()
    }

    /// The stored order with id `order_id`.
    pub fn get_order(&self, order_id: &str) -> (r: Option<&Order>)
        ensures
            match r {
                Some(o) => self.engine().store().contains_key(order_id@) && *o == self.engine().store()[order_id@],
                None => !self.engine().store().contains_key(order_id@),
            },
    {
        self.engine.get_order(order_id)
    }

    /// The snapshot of the book for `symbol`, `depth` levels a side.
    pub fn get_order_book_snapshot(&self, symbol: &str, depth: usize) -> (r: Option<OrderBookSnapshot>)
        ensures
            ({
                let bi = book_pos(self.engine().books(), symbol@) as int;
                if bi < self.engine().books().len() {
                    r matches Some(snap) && snap.symbol == self.engine().books()[bi].symbol
                        && snap.bids@ == crate::order_book::depth_levels(self.engine().books()[bi].bids@, depth)
                        && snap.asks@ == crate::order_book::depth_levels(self.engine().books()[bi].asks@, depth)
                } else {
                    r is None
                }
            }),
    {
        self.engine.get_order_book_snapshot(symbol, depth)
    }
}

} // verus!
