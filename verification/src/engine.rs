//! The matching engine: one order book per supported symbol, a store of the orders it
//! knows, and price-time priority matching that reports every execution.

use vstd::prelude::*;
use vstd::hash_map::StringHashMap;
use crate::model::{Order, Side, OrderType, ExecutionReport, OrderBookSnapshot, filled_by};
use crate::order_book::{
    OrderBook, PriceLevel, LevelView, side_view, side_wf, view_sorted, match_amount,
    queue_after_match, insert_pos, volume, cancel_found, cancelled_book, level_knows, knows_more,
};
use crate::matching::{
    Fill, crosses, queues_nonempty, side_after_step, match_run, store_step, store_after_fills,
    lemma_store_after_fills_push, lemma_side_after_step, book_after_order, lemma_match_run,
    law_order_keeps_book_uncrossed, lemma_side_take_shape, index_after_fills, index_after_order,
};
use crate::outside::{new_uuid_string, unix_time_secs};

verus! {

/// The report sent to the taker for execution `f`.
pub open spec fn taker_report(r: ExecutionReport, taker: Order, f: Fill) -> bool {
    &&& r.order_id == taker.id
    &&& r.symbol == taker.symbol
    &&& r.side == taker.side
    &&& r.price == f.1
    &&& r.quantity == f.2
    &&& r.remaining_quantity == f.3
    &&& r.counterparty_id == f.0.id
    &&& !r.is_maker
}

/// The report sent to the maker for execution `f` against `taker`.
pub open spec fn maker_report(r: ExecutionReport, taker: Order, f: Fill) -> bool {
    &&& r.order_id == f.0.id
    &&& r.symbol == f.0.symbol
    &&& r.side == f.0.side
    &&& r.price == f.1
    &&& r.quantity == f.2
    &&& r.remaining_quantity == filled_by(f.0, f.2).remaining_quantity
    &&& r.counterparty_id == taker.id
    &&& r.is_maker
}

/// Two reports per execution, taker's first, sharing an execution id and a time.
pub open spec fn reports_for(reps: Seq<ExecutionReport>, taker: Order, fills: Seq<Fill>) -> bool {
    &&& reps.len() == 2 * fills.len()
    &&& forall|i: int|
        #![trigger fills[i]]
        0 <= i < fills.len() ==> {
            &&& taker_report(reps[2 * i], taker, fills[i])
            &&& maker_report(reps[2 * i + 1], taker, fills[i])
            &&& reps[2 * i].execution_id == reps[2 * i + 1].execution_id
            &&& reps[2 * i].timestamp == reps[2 * i + 1].timestamp
        }
}

fn crosses_at(taker: &Order, price: u64) -> (r: bool)
    ensures
        r == crosses(*taker, price),
{
    match taker.order_type {
        OrderType::Market => true,
        OrderType::Limit => match taker.side {
            Side::Buy => taker.price >= price,
            Side::Sell => taker.price <= price,
        },
    }
}

/// Matches `taker` against the opposite side `opp`, best level first and oldest order
/// first, keeps the order store up to date and returns the execution reports.
fn match_side(
    opp: &mut Vec<(u64, PriceLevel)>,
    desc: bool,
    taker: &mut Order,
    store: &mut StringHashMap<Order>,
    index: &mut StringHashMap<(Side, u64)>,
) -> (reps: Vec<ExecutionReport>)
    requires
        side_wf(old(opp)@, desc),
        queues_nonempty(side_view(old(opp)@)),
    ensures
        ({
            let (t, o, fills) = match_run(*old(taker), side_view(old(opp)@));
            &&& *final(taker) == t
            &&& side_view(final(opp)@) == o
            &&& side_wf(final(opp)@, desc)
            &&& queues_nonempty(o)
            &&& final(store)@ == store_after_fills(old(store)@, fills)
            &&& final(index)@ == index_after_fills(old(index)@, fills)
            &&& reports_for(reps@, *old(taker), fills)
        }),
{
    let ghost t0 = *taker;
    let ghost v0 = side_view(opp@);
    let ghost run = match_run(t0, v0);
    let ghost all = run.2;
    let ghost s0 = store@;
    let ghost i0 = index@;
    let ghost mut k: int = 0;
    let mut reps: Vec<ExecutionReport> = Vec::new();
    loop
        invariant
            side_wf(opp@, desc),
            queues_nonempty(side_view(opp@)),
            0 <= k <= all.len(),
            run == match_run(t0, v0),
            all == run.2,
            match_run(*taker, side_view(opp@)) == (run.0, run.1, all.subrange(k, all.len() as int)),
            store@ == store_after_fills(s0, all.take(k)),
            index@ == index_after_fills(i0, all.take(k)),
            reports_for(reps@, t0, all.take(k)),
            taker.id == t0.id,
            taker.symbol == t0.symbol,
            taker.side == t0.side,
            taker.order_type == t0.order_type,
            taker.price == t0.price,
        ensures
            *taker == run.0,
            side_view(opp@) == run.1,
            side_wf(opp@, desc),
            queues_nonempty(side_view(opp@)),
            k == all.len(),
            store@ == store_after_fills(s0, all.take(k)),
            index@ == index_after_fills(i0, all.take(k)),
            reports_for(reps@, t0, all.take(k)),
        decreases opp@.len(), (if opp@.len() > 0 { opp@[0].1@.len() } else { 0 }), taker.remaining_quantity,
    {
        let ghost v = side_view(opp@);
        if taker.remaining_quantity == 0 || opp.len() == 0 {
            proof {
                assert(all.subrange(k, all.len() as int).len() == 0);
            }
            break;
        }
        let price = opp[0].0;
        if !crosses_at(taker, price) {
            proof {
                assert(all.subrange(k, all.len() as int).len() == 0);
            }
            break;
        }
        let q = taker.remaining_quantity;
        proof {
            assert(v[0].1 == opp@[0].1@);
            assert(v[0].1.len() > 0);
            assert(opp@[0].1.wf());
            lemma_side_after_step(v, q, desc);
        }
        let ghost m = v[0].1[0];
        let ghost a0 = match_amount(m, q);
        let ghost fill: Fill = (m, price, a0, filled_by(*taker, a0).remaining_quantity);
        let ghost t2 = filled_by(*taker, a0);
        let ghost v2 = side_after_step(v, q);
        proof {
            let rest = match_run(t2, v2);
            assert(match_run(*taker, v) == (rest.0, rest.1, seq![fill] + rest.2));
            assert(all.subrange(k, all.len() as int) =~= seq![fill] + rest.2);
            assert(all.subrange(k, all.len() as int).len() >= 1);
            assert(k < all.len());
            assert(all.subrange(k, all.len() as int)[0] == fill);
            assert(all[k] == fill);
            assert(all.subrange(k + 1, all.len() as int) =~= all.subrange(k, all.len() as int).drop_first());
            assert(all.subrange(k + 1, all.len() as int) =~= rest.2);
        }
        let ghost before = opp@;
        let res = opp[0].1.match_partial(q);
        let (maker_id, maker_after, a) = match res {
            Some(x) => x,
            None => {
                break;
            },
        };
        if opp[0].1.is_empty() {
            opp.remove(0);
        }
        proof {
            assert(side_view(opp@) =~= v2);
            assert forall|j: int| 0 <= j < opp@.len() implies (#[trigger] opp@[j]).1.wf() by {
                if opp@.len() < before.len() {
                    assert(opp@[j] == before[j + 1]);
                } else if j > 0 {
                    assert(opp@[j] == before[j]);
                }
            }
        }
        taker.fill(a);
        if maker_after.is_filled() {
            store.remove(maker_id.as_str());
            index.remove(maker_id.as_str());
        } else {
            store.insert(maker_id.clone(), maker_after.clone());
        }
        proof {
            lemma_store_after_fills_push(s0, all.take(k), fill);
            assert(all.take(k + 1) =~= all.take(k).push(fill));
            assert(all.take(k + 1).drop_last() =~= all.take(k));
        }
        let exec_id = new_uuid_string();
        let now = unix_time_secs();
        reps.push(
            ExecutionReport {
                execution_id: exec_id.clone(),
                order_id: taker.id.clone(),
                symbol: taker.symbol.clone(),
                side: taker.side,
                price,
                quantity: a,
                remaining_quantity: taker.remaining_quantity,
                timestamp: now,
                counterparty_id: maker_id.clone(),
                is_maker: false,
            },
        );
        reps.push(
            ExecutionReport {
                execution_id: exec_id,
                order_id: maker_after.id.clone(),
                symbol: maker_after.symbol.clone(),
                side: maker_after.side,
                price,
                quantity: a,
                remaining_quantity: maker_after.remaining_quantity,
                timestamp: now,
                counterparty_id: taker.id.clone(),
                is_maker: true,
            },
        );
        proof {
            let fs = all.take(k + 1);
            assert(fs[k] == fill);
            assert forall|i: int|
                #![trigger fs[i]]
                0 <= i < fs.len() implies {
                    &&& taker_report(reps@[2 * i], t0, fs[i])
                    &&& maker_report(reps@[2 * i + 1], t0, fs[i])
                    &&& reps@[2 * i].execution_id == reps@[2 * i + 1].execution_id
                    &&& reps@[2 * i].timestamp == reps@[2 * i + 1].timestamp
                } by {
                if i < k {
                    assert(fs[i] == all.take(k)[i]);
                }
            }
            k = k + 1;
        }
    }
    reps
}


/// Position of the first book with symbol `symbol`, or `books.len()`.
pub open spec fn book_pos(books: Seq<OrderBook>, symbol: Seq<char>) -> nat
    decreases books.len(),
{
    if books.len() == 0 {
        0
    } else if books[0].symbol@ == symbol {
        0
    } else {
        1 + book_pos(books.drop_first(), symbol)
    }
}

pub proof fn lemma_book_pos(books: Seq<OrderBook>, symbol: Seq<char>)
    ensures
        book_pos(books, symbol) <= books.len(),
        book_pos(books, symbol) < books.len() ==> books[book_pos(books, symbol) as int].symbol@ == symbol,
        forall|j: int| 0 <= j < book_pos(books, symbol) ==> books[j].symbol@ != symbol,
    decreases books.len(),
{
    if books.len() > 0 && books[0].symbol@ != symbol {
        lemma_book_pos(books.drop_first(), symbol);
        assert forall|j: int| 0 <= j < book_pos(books, symbol) implies books[j].symbol@ != symbol by {
            if j > 0 {
                assert(books[j] == books.drop_first()[j - 1]);
            }
        }
    }
}

pub proof fn lemma_book_pos_at(books: Seq<OrderBook>, symbol: Seq<char>, i: int)
    requires
        0 <= i <= books.len(),
        forall|j: int| 0 <= j < i ==> books[j].symbol@ != symbol,
        i < books.len() ==> books[i].symbol@ == symbol,
    ensures
        book_pos(books, symbol) == i,
    decreases books.len(),
{
    if i > 0 {
        assert forall|j: int| 0 <= j < i - 1 implies books.drop_first()[j].symbol@ != symbol by {
            assert(books.drop_first()[j] == books[j + 1]);
        }
        lemma_book_pos_at(books.drop_first(), symbol, i - 1);
    }
}

/// Whether what is left of `order` after its run, `t`, rests in the book: a limit
/// order with something left.
pub open spec fn order_rests(order: Order, t: Order) -> bool {
    order.order_type == OrderType::Limit && t.remaining_quantity > 0
}

/// A book as the engine keeps it: well-formed, no empty level, not crossed.
pub open spec fn book_ok(b: OrderBook) -> bool {
    &&& b.wf()
    &&& queues_nonempty(b.bids_view())
    &&& queues_nonempty(b.asks_view())
    &&& crate::matching::uncrossed(b.bids_view(), b.asks_view())
}

/// Whether a limit order's rest fits in the level where it would rest: the level's
/// volume stays within 64 bits.
pub open spec fn rest_fits(b: OrderBook, order: Order) -> bool {
    let own = if order.side == Side::Buy { b.bids_view() } else { b.asks_view() };
    let desc = order.side == Side::Buy;
    let t = if order.side == Side::Buy {
        match_run(order, b.asks_view()).0
    } else {
        match_run(order, b.bids_view()).0
    };
    let k = insert_pos(own, order.price, desc) as int;
    order.order_type == OrderType::Limit && t.remaining_quantity > 0 && k < own.len() && own[k].0
        == order.price ==> volume(own[k].1) + t.remaining_quantity <= u64::MAX
}

/// The order store after `order` was processed and matched into `fills`, leaving the
/// taker `t`: the order is stored, the makers are updated, and the order leaves the
/// store again unless it rests in the book.
pub open spec fn store_after_order(store: Map<Seq<char>, Order>, order: Order, t: Order, fills: Seq<Fill>)
    -> Map<Seq<char>, Order>
{
    let s2 = store_after_fills(store.insert(order.id@, order), fills);
    if order.order_type == OrderType::Limit && t.remaining_quantity > 0 {
        s2
    } else {
        s2.remove(order.id@)
    }
}

/// The report that confirms the cancellation of `cancelled`, whose id is `target`.
pub open spec fn cancel_report(r: ExecutionReport, cancelled: Order, target: Seq<char>) -> bool {
    &&& r.order_id@ == target
    &&& r.symbol == cancelled.symbol
    &&& r.side == cancelled.side
    &&& r.price == cancelled.price
    &&& r.quantity == 0
    &&& r.remaining_quantity == 0
    &&& r.counterparty_id@ == "system"@
    &&& !r.is_maker
}

/// A cancel request `cancel` handled on books `books0` and store `store0`, giving
/// `books1`, `store1` and the report `r`: when the target is stored and its symbol has a
/// book, that book cancels it (see `OrderBook::cancel_order`), the other books stay, and
/// when the book gave an order back the target leaves the store and `r` confirms it;
/// otherwise nothing changes and there is no report.
pub open spec fn cancel_handled(
    books0: Seq<OrderBook>,
    store0: Map<Seq<char>, Order>,
    cancel: Order,
    books1: Seq<OrderBook>,
    store1: Map<Seq<char>, Order>,
    r: Option<ExecutionReport>,
) -> bool {
    let reached = match cancel.target_order_id {
        Some(t) => store0.contains_key(t@) && book_pos(books0, store0[t@].symbol@) < books0.len(),
        None => false,
    };
    if !reached {
        &&& r is None
        &&& books1 == books0
        &&& store1 == store0
    } else {
        let t = cancel.target_order_id->0@;
        let bi = book_pos(books0, store0[t].symbol@) as int;
        let b = books0[bi];
        &&& books1.len() == books0.len()
        &&& forall|j: int| 0 <= j < books0.len() && j != bi ==> books1[j] == books0[j]
        &&& cancelled_book(b, t, books1[bi])
        &&& match cancel_found(b, t) {
            Some(o) => {
                &&& r matches Some(rep) && cancel_report(rep, o, t)
                &&& store1 == store0.remove(t)
            },
            None => r is None && store1 == store0,
        }
    }
}

/// Whether `s` is one of `symbols`.
pub open spec fn listed(s: String, symbols: Seq<String>) -> bool {
    exists|j: int| 0 <= j < symbols.len() && s == symbols[j]
}

/// The matching engine.
pub struct MatchingEngine {
    order_books: Vec<OrderBook>,
    order_store: StringHashMap<Order>,
}

impl MatchingEngine {
    /// The books, one per supported symbol.
    pub closed spec fn books(&self) -> Seq<OrderBook> {
        self.order_books@
    }

    /// The stored orders by id: resting orders and orders being processed.
    pub closed spec fn store(&self) -> Map<Seq<char>, Order> {
        self.order_store@
    }

    /// Every book is kept well-formed, with no empty level and not crossed, and no two
    /// books share a symbol.
    pub open spec fn wf(&self) -> bool {
        &&& forall|i: int| 0 <= i < self.books().len() ==> book_ok(#[trigger] self.books()[i])
        &&& forall|i: int, j: int|
            0 <= i < j < self.books().len() ==> self.books()[i].symbol@ != self.books()[j].symbol@
    }

    fn find_book(&self, symbol: &String) -> (r: usize)
        ensures
            r == book_pos(self.books(), symbol@),
    {
        proof {
            lemma_book_pos(self.order_books@, symbol@);
        }
        let n = self.order_books.len();
        let mut i: usize = 0;
        while i < n
            invariant
                n == self.order_books@.len(),
                i <= n,
                forall|j: int| 0 <= j < i ==> self.order_books@[j].symbol@ != symbol@,
            decreases n - i,
        {
            if self.order_books[i].symbol == *symbol {
                proof {
                    lemma_book_pos_at(self.order_books@, symbol@, i as int);
                }
                return i;
            }
            i = i + 1;
        }
        proof {
            lemma_book_pos_at(self.order_books@, symbol@, n as int);
        }
        n
    }

    /// An engine with an empty book for each symbol (a symbol named twice gets one
    /// book) and an empty order store.
    pub fn new(symbols: Vec<String>) -> (r: Self)
        ensures
            r.wf(),
            r.store() == Map::<Seq<char>, Order>::empty(),
            r.books().len() <= symbols@.len(),
            forall|i: int| 0 <= i < r.books().len() ==> {
                &&& (#[trigger] r.books()[i]).bids@.len() == 0
                &&& r.books()[i].asks@.len() == 0
            },
            forall|i: int| 0 <= i < symbols@.len() ==> book_pos(r.books(), (#[trigger] symbols@[i])@)
                < r.books().len(),
            forall|i: int| 0 <= i < r.books().len() ==> listed((#[trigger] r.books()[i]).symbol, symbols@),
    {
        let mut engine = MatchingEngine { order_books: Vec::new(), order_store: StringHashMap::new() };
        let n = symbols.len();
        let mut i: usize = 0;
        while i < n
            invariant
                n == symbols@.len(),
                i <= n,
                engine.wf(),
                engine.store() == Map::<Seq<char>, Order>::empty(),
                engine.books().len() <= i,
                forall|j: int| 0 <= j < engine.books().len() ==> {
                    &&& (#[trigger] engine.books()[j]).bids@.len() == 0
                    &&& engine.books()[j].asks@.len() == 0
                },
                forall|j: int| 0 <= j < i ==> book_pos(engine.books(), (#[trigger] symbols@[j])@)
                    < engine.books().len(),
                forall|j: int| 0 <= j < engine.books().len() ==> listed((#[trigger] engine.books()[j]).symbol, symbols@),
            decreases n - i,
        {
            let symbol = symbols[i].clone();
            let pos = engine.find_book(&symbol);
            if pos == engine.order_books.len() {
                let ghost old_books = engine.order_books@;
                engine.order_books.push(OrderBook::new(symbol));
                proof {
                    lemma_book_pos(old_books, symbols@[i as int]@);
                    assert forall|j: int| 0 <= j <= i implies book_pos(engine.books(), (#[trigger] symbols@[j])@)
                        < engine.books().len() by {
                        lemma_book_pos(old_books, symbols@[j]@);
                        lemma_book_pos(engine.order_books@, symbols@[j]@);
                        if j < i {
                            let p = book_pos(old_books, symbols@[j]@) as int;
                            assert(engine.order_books@[p] == old_books[p]);
                            if book_pos(engine.order_books@, symbols@[j]@) > p {
                                assert(false);
                            }
                        } else {
                            if book_pos(engine.order_books@, symbols@[j]@) == engine.order_books@.len() {
                                assert(engine.order_books@[old_books.len() as int].symbol@ == symbols@[j]@);
                            }
                        }
                    }
                    assert forall|j: int| 0 <= j < engine.books().len() implies listed((#[trigger] engine.books()[j]).symbol, symbols@) by {
                        if j < old_books.len() {
                            assert(engine.books()[j] == old_books[j]);
                        } else {
                            assert(engine.books()[j].symbol == symbols@[i as int]);
                        }
                    }
                    assert forall|a: int, b: int| 0 <= a < b < engine.books().len() implies engine.books()[a].symbol@
                        != engine.books()[b].symbol@ by {
                        if b == old_books.len() {
                            assert(engine.books()[a] == old_books[a]);
                        } else {
                            assert(engine.books()[a] == old_books[a]);
                            assert(engine.books()[b] == old_books[b]);
                        }
                    }
                    assert forall|j: int| 0 <= j < engine.books().len() implies book_ok(#[trigger] engine.books()[j]) by {
                        if j < old_books.len() {
                            assert(engine.books()[j] == old_books[j]);
                        } else {
                            assert(engine.books()[j].bids@.len() == 0);
                            assert(engine.books()[j].bids_view().len() == 0);
                            assert(engine.books()[j].asks_view().len() == 0);
                        }
                    }
                }
            } else {
                proof {
                    lemma_book_pos(engine.order_books@, symbols@[i as int]@);
                }
            }
            i = i + 1;
        }
        engine
    }

    /// Processes a new order: an order for a symbol without a book is dropped. Otherwise
    /// the order is stored and matched against the opposite side of its book (a buy
    /// against the asks, lowest price first; a sell against the bids, highest first;
    /// oldest order first within a price), a limit order only at its limit or better.
    /// A limit order with quantity left then rests in the book; any other order leaves
    /// the store. Returns two reports per execution, the taker's first.
    pub fn process_order(&mut self, order: Order) -> (reps: Vec<ExecutionReport>)
        requires
            old(self).wf(),
            book_pos(old(self).books(), order.symbol@) < old(self).books().len() ==> rest_fits(
                old(self).books()[book_pos(old(self).books(), order.symbol@) as int],
                order,
            ),
        ensures
            final(self).wf(),
            ({
                let bi = book_pos(old(self).books(), order.symbol@) as int;
                if bi == old(self).books().len() {
                    &&& final(self).books() == old(self).books()
                    &&& final(self).store() == old(self).store()
                    &&& reps@.len() == 0
                } else {
                    let b = old(self).books()[bi];
                    let (b2, a2, t, fills) = book_after_order(b.bids_view(), b.asks_view(), order);
                    &&& final(self).books().len() == old(self).books().len()
                    &&& forall|j: int| 0 <= j < old(self).books().len() && j != bi
                        ==> final(self).books()[j] == old(self).books()[j]
                    &&& final(self).books()[bi].symbol == b.symbol
                    &&& final(self).books()[bi].bids_view() == b2
                    &&& final(self).books()[bi].asks_view() == a2
                    &&& final(self).books()[bi].orders@ == index_after_order(b.orders@, order, t, fills)
                    &&& order_rests(order, t) && order.side == Side::Buy ==> knows_more(b.bids@,
                        final(self).books()[bi].bids@, order.price, order.id@)
                    &&& order_rests(order, t) && order.side == Side::Sell ==> knows_more(b.asks@,
                        final(self).books()[bi].asks@, order.price, order.id@)
                    &&& !order_rests(order, t) && order.side == Side::Buy ==> final(self).books()[bi].bids@ == b.bids@
                    &&& !order_rests(order, t) && order.side == Side::Sell ==> final(self).books()[bi].asks@ == b.asks@
                    &&& final(self).store() == store_after_order(old(self).store(), order, t, fills)
                    &&& reports_for(reps@, order, fills)
                }
            }),
    {
        let idx = self.find_book(&order.symbol);
        proof {
            lemma_book_pos(self.order_books@, order.symbol@);
        }
        if idx == self.order_books.len() {
            return Vec::new();
        }
        let ghost b = self.order_books@[idx as int];
        let ghost books0 = self.order_books@;
        let ghost after = book_after_order(b.bids_view(), b.asks_view(), order);
        proof {
            assert(book_ok(b));
            law_order_keeps_book_uncrossed(b.bids_view(), b.asks_view(), order);
        }
        self.order_store.insert(order.id.clone(), order.clone());
        let ghost s1 = self.order_store@;
        proof {
            assert(s1 == old(self).store().insert(order.id@, order));
            if order.side == Side::Buy {
                lemma_match_run(order, b.asks_view(), false);
            } else {
                lemma_match_run(order, b.bids_view(), true);
            }
        }
        let mut taker = order;
        let book = &mut self.order_books[idx];
        let reps = match taker.side {
            Side::Buy => match_side(&mut book.asks, false, &mut taker, &mut self.order_store, &mut book.orders),
            Side::Sell => match_side(&mut book.bids, true, &mut taker, &mut self.order_store, &mut book.orders),
        };
        match taker.order_type {
            OrderType::Market => {
                self.order_store.remove(taker.id.as_str());
            },
            OrderType::Limit => {
                if !taker.is_filled() {
                    proof {
                        assert(taker.price == order.price);
                        assert(taker.side == order.side);
                        if order.side == Side::Buy {
                            assert(book.bids == b.bids);
                        } else {
                            assert(book.asks == b.asks);
                        }
                        assert(taker.id@ == order.id@);
                    }
                    book.add_order(taker);
                } else {
                    self.order_store.remove(taker.id.as_str());
                }
            },
        }
        proof {
            let nb = self.order_books@[idx as int];
            assert(nb.bids_view() == after.0);
            assert(nb.asks_view() == after.1);
            assert(book_ok(nb));
            assert forall|j: int| 0 <= j < self.books().len() implies book_ok(#[trigger] self.books()[j]) by {
                if j != idx {
                    assert(self.books()[j] == books0[j]);
                }
            }
            assert forall|i: int, j: int| 0 <= i < j < self.books().len() implies self.books()[i].symbol@
                != self.books()[j].symbol@ by {
                assert(self.books()[i].symbol == books0[i].symbol);
                assert(self.books()[j].symbol == books0[j].symbol);
            }
        }
        reps
    }

    /// Handles a cancel request: the target order is looked up in the store, then
    /// cancelled in the book of its symbol (see `OrderBook::cancel_order`). When the book
    /// gave an order back, the target leaves the store and the returned report confirms
    /// the cancellation; otherwise the store is unchanged and there is no report.
    pub fn handle_cancel_order(&mut self, cancel_order: &Order) -> (r: Option<ExecutionReport>)
        requires
            old(self).wf(),
        ensures
            final(self).wf(),
            cancel_handled(old(self).books(), old(self).store(), *cancel_order, final(self).books(), final(self).store(), r),
    {
        let target = match &cancel_order.target_order_id {
            Some(t) => t,
            None => {
                return None;
            },
        };
        let symbol = match self.order_store.get(target.as_str()) {
            Some(o) => o.symbol.clone(),
            None => {
                return None;
            },
        };
        let idx = self.find_book(&symbol);
        proof {
            lemma_book_pos(self.order_books@, symbol@);
        }
        if idx == self.order_books.len() {
            return None;
        }
        let ghost books0 = self.order_books@;
        let ghost b = books0[idx as int];
        proof {
            assert(book_ok(b));
            if b.orders@.contains_key(target@) {
                let price = b.orders@[target@].1;
                lemma_side_take_shape(b.bids_view(), price, target@, level_knows(b.bids@, price, target@), true);
                lemma_side_take_shape(b.asks_view(), price, target@, level_knows(b.asks@, price, target@), false);
            }
        }
        let book = &mut self.order_books[idx];
        let cancelled = book.cancel_order(target.as_str());
        proof {
            let nb = self.order_books@[idx as int];
            assert(book_ok(nb));
            assert forall|j: int| 0 <= j < self.books().len() implies book_ok(#[trigger] self.books()[j]) by {
                if j != idx {
                    assert(self.books()[j] == books0[j]);
                }
            }
            assert forall|i: int, j: int| 0 <= i < j < self.books().len() implies self.books()[i].symbol@
                != self.books()[j].symbol@ by {
                assert(self.books()[i].symbol == books0[i].symbol);
                assert(self.books()[j].symbol == books0[j].symbol);
            }
        }
        match cancelled {
            Some(c) => {
                let now = unix_time_secs();
                let report = ExecutionReport {
                    execution_id: new_uuid_string(),
                    order_id: target.clone(),
                    symbol: c.symbol.clone(),
                    side: c.side,
                    price: c.price,
                    quantity: 0,
                    remaining_quantity: 0,
                    timestamp: now,
                    counterparty_id: String::from_str("system"),
                    is_maker: false,
                };
                self.order_store.remove(target.as_str());
                Some(report)
            },
            None => None,
        }
    }

    /// Handles one order from the order stream: a cancel request goes to
    /// `handle_cancel_order`, any other order to `process_order`. Returns the reports.
    pub fn handle_order(&mut self, order: Order) -> (reps: Vec<ExecutionReport>)
        requires
            old(self).wf(),
            !order.is_cancel && book_pos(old(self).books(), order.symbol@) < old(self).books().len()
                ==> rest_fits(old(self).books()[book_pos(old(self).books(), order.symbol@) as int], order),
        ensures
            final(self).wf(),
            !order.is_cancel ==> {
                let bi = book_pos(old(self).books(), order.symbol@) as int;
                if bi == old(self).books().len() {
                    &&& final(self).books() == old(self).books()
                    &&& final(self).store() == old(self).store()
                    &&& reps@.len() == 0
                } else {
                    let b = old(self).books()[bi];
                    let (b2, a2, t, fills) = book_after_order(b.bids_view(), b.asks_view(), order);
                    &&& final(self).books().len() == old(self).books().len()
                    &&& forall|j: int| 0 <= j < old(self).books().len() && j != bi
                        ==> final(self).books()[j] == old(self).books()[j]
                    &&& final(self).books()[bi].symbol == b.symbol
                    &&& final(self).books()[bi].bids_view() == b2
                    &&& final(self).books()[bi].asks_view() == a2
                    &&& final(self).books()[bi].orders@ == index_after_order(b.orders@, order, t, fills)
                    &&& order_rests(order, t) && order.side == Side::Buy ==> knows_more(b.bids@,
                        final(self).books()[bi].bids@, order.price, order.id@)
                    &&& order_rests(order, t) && order.side == Side::Sell ==> knows_more(b.asks@,
                        final(self).books()[bi].asks@, order.price, order.id@)
                    &&& !order_rests(order, t) && order.side == Side::Buy ==> final(self).books()[bi].bids@ == b.bids@
                    &&& !order_rests(order, t) && order.side == Side::Sell ==> final(self).books()[bi].asks@ == b.asks@
                    &&& final(self).store() == store_after_order(old(self).store(), order, t, fills)
                    &&& reports_for(reps@, order, fills)
                }
            },
            order.is_cancel ==> reps@.len() <= 1 && cancel_handled(old(self).books(), old(self).store(), order,
                final(self).books(), final(self).store(), if reps@.len() == 1 { Some(reps@[0]) } else { None }),
    {
        if order.is_cancel {
            let mut reps: Vec<ExecutionReport> = Vec::new();
            match self.handle_cancel_order(&order) {
                Some(r) => reps.push(r),
                None => {},
            }
            reps
        } else {
            self.process_order(order)
        }
    }

    /// The books, one per supported symbol.
    pub fn get_order_books(&self) -> (r: &Vec<OrderBook>)
        ensures
            r@ == self.books(),
    {
        &self.order_books
    }

    /// The stored order with id `order_id`.
    pub fn get_order(&self, order_id: &str) -> (r: Option<&Order>)
        ensures
            match r {
                Some(o) => self.store().contains_key(order_id@) && *o == self.store()[order_id@],
                None => !self.store().contains_key(order_id@),
            },
    {
        self.order_store.get(order_id)
    }

    /// Whether no order is stored.
    pub fn has_no_stored_orders(&self) -> (r: bool)
        ensures
            r == self.store().is_empty(),
    {
        self.order_store.is_empty()
    }

    /// A snapshot of up to `depth` levels per side of the book of `symbol`.
    pub fn get_order_book_snapshot(&self, symbol: &str, depth: usize) -> (r: Option<OrderBookSnapshot>)
        ensures
            ({
                let bi = book_pos(self.books(), symbol@) as int;
                if bi < self.books().len() {
                    r matches Some(snap) && snap.symbol == self.books()[bi].symbol
                        && snap.bids@ == crate::order_book::depth_levels(self.books()[bi].bids@, depth)
                        && snap.asks@ == crate::order_book::depth_levels(self.books()[bi].asks@, depth)
                } else {
                    r is None
                }
            }),
    {
        let key = symbol.to_owned();
        let idx = self.find_book(&key);
        if idx < self.order_books.len() {
            Some(self.order_books[idx].get_order_book_snapshot(depth))
        } else {
            None
        }
    }
}

} // verus!
