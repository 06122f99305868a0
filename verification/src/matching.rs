//! What matching a taker against the opposite side of a book does, stated over the
//! (price, queue) view of the levels, and the laws that follow.

use vstd::prelude::*;
use crate::model::{Order, Side, OrderType, filled_by};
use crate::keys::{first_pos, lemma_first_pos};
use crate::order_book::{
    LevelView, better, view_sorted, match_amount, queue_after_match, volume, side_add,
    insert_pos, lemma_insert_pos, lemma_side_add_sorted, side_take, level_prices, id_pos,
    lemma_id_pos,
};

verus! {

/// One execution against a resting order: the maker as it stood before, the price,
/// the executed quantity, and what remains of the taker afterwards.
pub type Fill = (Order, u64, u64, u64);

/// Whether a taker may trade at `price`: a market order at any price, a limit buy at
/// its limit or lower, a limit sell at its limit or higher.
pub open spec fn crosses(taker: Order, price: u64) -> bool {
    ||| taker.order_type == OrderType::Market
    ||| (taker.side == Side::Buy && taker.price >= price)
    ||| (taker.side == Side::Sell && taker.price <= price)
}

/// Every level of the side holds at least one order.
pub open spec fn queues_nonempty(v: Seq<LevelView>) -> bool {
    forall|i: int| 0 <= i < v.len() ==> (#[trigger] v[i]).1.len() > 0
}

/// The opposite side after one match against its best level.
pub open spec fn side_after_step(opp: Seq<LevelView>, quantity: u64) -> Seq<LevelView> {
    let q2 = queue_after_match(opp[0].1, quantity);
    if q2.len() == 0 {
        opp.drop_first()
    } else {
        opp.update(0, (opp[0].0, q2))
    }
}

/// Matches `taker` against the opposite side `opp` (best level first): while the taker
/// has quantity left, the side has a level and the taker may trade at that level's
/// price, the first order of the best level executes against it. Returns the taker
/// afterwards, the side afterwards, and the executions in order.
pub open spec fn match_run(taker: Order, opp: Seq<LevelView>) -> (Order, Seq<LevelView>, Seq<Fill>)
    decreases opp.len(), (if opp.len() > 0 { opp[0].1.len() } else { 0 }), taker.remaining_quantity,
{
    if taker.remaining_quantity == 0 || opp.len() == 0 || opp[0].1.len() == 0 || !crosses(taker, opp[0].0) {
        (taker, opp, Seq::empty())
    } else {
        let m = opp[0].1[0];
        let a = match_amount(m, taker.remaining_quantity);
        let t2 = filled_by(taker, a);
        let opp2 = side_after_step(opp, taker.remaining_quantity);
        let rest = match_run(t2, opp2);
        (rest.0, rest.1, seq![(m, opp[0].0, a, t2.remaining_quantity)] + rest.2)
    }
}

/// The resting orders of a side in price-time priority: best level first, oldest
/// first within a level.
pub open spec fn flatten(v: Seq<LevelView>) -> Seq<Order>
    decreases v.len(),
{
    if v.len() == 0 {
        Seq::empty()
    } else {
        v[0].1 + flatten(v.drop_first())
    }
}

/// Total remaining quantity resting on a side.
pub open spec fn side_volume(v: Seq<LevelView>) -> nat
    decreases v.len(),
{
    if v.len() == 0 {
        0
    } else {
        volume(v[0].1) + side_volume(v.drop_first())
    }
}

/// Sum of the executed quantities of a run of executions.
pub open spec fn filled_total(fills: Seq<Fill>) -> nat
    decreases fills.len(),
{
    if fills.len() == 0 {
        0
    } else {
        fills[0].2 as nat + filled_total(fills.drop_first())
    }
}

/// The book is not crossed: when both sides have a level, the best bid is below the
/// best ask.
pub open spec fn uncrossed(bids: Seq<LevelView>, asks: Seq<LevelView>) -> bool {
    bids.len() > 0 && asks.len() > 0 ==> bids[0].0 < asks[0].0
}

/// The sides of a book after a new (non-cancel) order was processed against it, with
/// the executions: the order matches against the opposite side; a limit order with
/// quantity left then rests on its own side at its price. Returns (bids, asks,
/// taker after matching, executions).
pub open spec fn book_after_order(bids: Seq<LevelView>, asks: Seq<LevelView>, order: Order)
    -> (Seq<LevelView>, Seq<LevelView>, Order, Seq<Fill>)
{
    if order.side == Side::Buy {
        let r = match_run(order, asks);
        let rests = order.order_type == OrderType::Limit && r.0.remaining_quantity > 0;
        (if rests { side_add(bids, r.0, true) } else { bids }, r.1, r.0, r.2)
    } else {
        let r = match_run(order, bids);
        let rests = order.order_type == OrderType::Limit && r.0.remaining_quantity > 0;
        (r.1, if rests { side_add(asks, r.0, false) } else { asks }, r.0, r.2)
    }
}

/// The order store after one execution: a maker executed in full leaves it, a maker
/// executed in part is stored as it now stands.
pub open spec fn store_step(store: Map<Seq<char>, Order>, f: Fill) -> Map<Seq<char>, Order> {
    let m2 = filled_by(f.0, f.2);
    if m2.remaining_quantity == 0 {
        store.remove(f.0.id@)
    } else {
        store.insert(f.0.id@, m2)
    }
}

/// The order store after a run of executions, one after the other.
pub open spec fn store_after_fills(store: Map<Seq<char>, Order>, fills: Seq<Fill>) -> Map<Seq<char>, Order>
    decreases fills.len(),
{
    if fills.len() == 0 {
        store
    } else {
        store_after_fills(store_step(store, fills[0]), fills.drop_first())
    }
}

/// The book's index after a run of executions: a maker executed in full leaves it.
pub open spec fn index_after_fills(index: Map<Seq<char>, (Side, u64)>, fills: Seq<Fill>) -> Map<
    Seq<char>,
    (Side, u64),
>
    decreases fills.len(),
{
    if fills.len() == 0 {
        index
    } else {
        let rest = index_after_fills(index, fills.drop_last());
        let f = fills.last();
        if filled_by(f.0, f.2).remaining_quantity == 0 {
            rest.remove(f.0.id@)
        } else {
            rest
        }
    }
}

/// The book's index after `order` was processed, its run ending with the taker `t`
/// after the executions `fills`: the makers executed in full leave it, and a limit
/// order that rests is recorded under its id.
pub open spec fn index_after_order(
    index: Map<Seq<char>, (Side, u64)>,
    order: Order,
    t: Order,
    fills: Seq<Fill>,
) -> Map<Seq<char>, (Side, u64)> {
    let idx = index_after_fills(index, fills);
    if order.order_type == OrderType::Limit && t.remaining_quantity > 0 {
        idx.insert(order.id@, (order.side, order.price))
    } else {
        idx
    }
}

pub proof fn lemma_store_after_fills_push(store: Map<Seq<char>, Order>, fills: Seq<Fill>, f: Fill)
    ensures
        store_after_fills(store, fills.push(f)) == store_step(store_after_fills(store, fills), f),
    decreases fills.len(),
{
    if fills.len() == 0 {
        assert(fills.push(f).drop_first() =~= Seq::<Fill>::empty());
        assert(store_after_fills(store_step(store, f), Seq::<Fill>::empty()) == store_step(store, f));
    } else {
        lemma_store_after_fills_push(store_step(store, fills[0]), fills.drop_first(), f);
        assert(fills.push(f).drop_first() =~= fills.drop_first().push(f));
    }
}

/// The side after one step stays ordered and keeps no empty level.
pub proof fn lemma_side_after_step(opp: Seq<LevelView>, quantity: u64, desc: bool)
    requires
        view_sorted(opp, desc),
        queues_nonempty(opp),
        opp.len() > 0,
    ensures
        view_sorted(side_after_step(opp, quantity), desc),
        queues_nonempty(side_after_step(opp, quantity)),
{
    let opp2 = side_after_step(opp, quantity);
    let q2 = queue_after_match(opp[0].1, quantity);
    if q2.len() == 0 {
        assert forall|i: int, j: int| 0 <= i < j < opp2.len() implies better(opp2[i].0, opp2[j].0, desc) by {
            assert(opp2[i] == opp[i + 1] && opp2[j] == opp[j + 1]);
        }
    } else {
        assert forall|i: int, j: int| 0 <= i < j < opp2.len() implies better(opp2[i].0, opp2[j].0, desc) by {
            assert(opp2[i].0 == opp[i].0 && opp2[j].0 == opp[j].0);
        }
    }
    assert forall|i: int| 0 <= i < opp2.len() implies (#[trigger] opp2[i]).1.len() > 0 by {
        if q2.len() == 0 {
            assert(opp2[i] == opp[i + 1]);
        } else if i > 0 {
            assert(opp2[i] == opp[i]);
        }
    }
}

pub proof fn lemma_flatten_front(v: Seq<LevelView>)
    requires
        v.len() > 0,
        v[0].1.len() > 0,
    ensures
        flatten(v).len() > 0,
        flatten(v)[0] == v[0].1[0],
{
}

pub proof fn lemma_flatten_step(opp: Seq<LevelView>, quantity: u64)
    requires
        opp.len() > 0,
        opp[0].1.len() > 0,
        match_amount(opp[0].1[0], quantity) >= opp[0].1[0].remaining_quantity,
    ensures
        flatten(side_after_step(opp, quantity)) == flatten(opp).drop_first(),
{
    let q2 = queue_after_match(opp[0].1, quantity);
    assert(q2 == opp[0].1.drop_first());
    if q2.len() == 0 {
        assert(flatten(opp) =~= opp[0].1 + flatten(opp.drop_first()));
        assert(flatten(opp).drop_first() =~= flatten(opp.drop_first()));
    } else {
        let o2 = side_after_step(opp, quantity);
        assert(o2.drop_first() =~= opp.drop_first());
        assert(flatten(o2) =~= q2 + flatten(opp.drop_first()));
        assert(flatten(opp).drop_first() =~= q2 + flatten(opp.drop_first()));
    }
}

pub proof fn lemma_volume_step(opp: Seq<LevelView>, quantity: u64)
    requires
        opp.len() > 0,
        opp[0].1.len() > 0,
    ensures
        side_volume(side_after_step(opp, quantity)) + match_amount(opp[0].1[0], quantity)
            == side_volume(opp),
{
    let q = opp[0].1;
    let m = q[0];
    let a = match_amount(m, quantity);
    let q2 = queue_after_match(q, quantity);
    let o2 = side_after_step(opp, quantity);
    if a >= m.remaining_quantity {
        assert(volume(q) == m.remaining_quantity + volume(q.drop_first()));
        if q2.len() == 0 {
            assert(volume(q2) == 0);
        } else {
            assert(o2.drop_first() =~= opp.drop_first());
        }
    } else {
        crate::order_book::lemma_volume_update_front(q, filled_by(m, a));
        assert(o2.drop_first() =~= opp.drop_first());
    }
}

/// What matching does to the opposite side and the taker: the side stays ordered with
/// no empty level, its best price only moves away from the taker, nothing of the
/// taker's identity changes, and the taker stops with quantity left only when the
/// side is empty or its best price is out of the taker's reach. The executions are the
/// first resting orders in price-time priority, each at a price within the taker's
/// reach and no better than the one before, and the quantity they execute leaves
/// both the taker and the side.
pub proof fn lemma_match_run(taker: Order, opp: Seq<LevelView>, desc: bool)
    requires
        view_sorted(opp, desc),
        queues_nonempty(opp),
    ensures
        ({
            let (t, o, fills) = match_run(taker, opp);
            &&& view_sorted(o, desc)
            &&& queues_nonempty(o)
            &&& o.len() <= opp.len()
            &&& (o.len() > 0 ==> !better(o[0].0, opp[0].0, desc))
            &&& t == filled_by(taker, (taker.remaining_quantity - t.remaining_quantity) as u64)
            &&& t.remaining_quantity <= taker.remaining_quantity
            &&& (t.remaining_quantity > 0 ==> o.len() == 0 || !crosses(taker, o[0].0))
            &&& fills.len() <= flatten(opp).len()
            &&& (forall|i: int| 0 <= i < fills.len() ==> (#[trigger] fills[i]).0 == flatten(opp)[i])
            &&& (forall|i: int| 0 <= i < fills.len() ==> crosses(taker, (#[trigger] fills[i]).1))
            &&& (forall|i: int, j: int| 0 <= i < j < fills.len() ==> !better(fills[j].1, fills[i].1, desc))
            &&& (fills.len() > 0 ==> fills[0].1 == opp[0].0)
            &&& filled_total(fills) + t.remaining_quantity == taker.remaining_quantity
            &&& side_volume(o) + filled_total(fills) == side_volume(opp)
        }),
    decreases opp.len(), (if opp.len() > 0 { opp[0].1.len() } else { 0 }), taker.remaining_quantity,
{
    if taker.remaining_quantity == 0 || opp.len() == 0 || opp[0].1.len() == 0 || !crosses(taker, opp[0].0) {
        assert(filled_by(taker, 0) == taker);
    } else {
        let q = opp[0].1;
        let m = q[0];
        let a = match_amount(m, taker.remaining_quantity);
        let t2 = filled_by(taker, a);
        let opp2 = side_after_step(opp, taker.remaining_quantity);
        let q2 = queue_after_match(q, taker.remaining_quantity);
        // the side after one step stays ordered and without empty levels
        assert(view_sorted(opp2, desc)) by {
            if q2.len() == 0 {
                assert forall|i: int, j: int| 0 <= i < j < opp2.len() implies better(opp2[i].0, opp2[j].0, desc) by {
                    assert(opp2[i] == opp[i + 1] && opp2[j] == opp[j + 1]);
                }
            } else {
                assert forall|i: int, j: int| 0 <= i < j < opp2.len() implies better(opp2[i].0, opp2[j].0, desc) by {
                    assert(opp2[i].0 == opp[i].0 && opp2[j].0 == opp[j].0);
                }
            }
        }
        assert(queues_nonempty(opp2)) by {
            assert forall|i: int| 0 <= i < opp2.len() implies (#[trigger] opp2[i]).1.len() > 0 by {
                if q2.len() == 0 {
                    assert(opp2[i] == opp[i + 1]);
                } else if i > 0 {
                    assert(opp2[i] == opp[i]);
                }
            }
        }
        lemma_match_run(t2, opp2, desc);
        lemma_volume_step(opp, taker.remaining_quantity);
        let (t, o, rest) = match_run(t2, opp2);
        let fills = seq![(m, opp[0].0, a, t2.remaining_quantity)] + rest;
        assert(match_run(taker, opp) == (t, o, fills));
        assert(a <= taker.remaining_quantity);
        assert(filled_total(fills) == a + filled_total(rest)) by {
            assert(fills.drop_first() =~= rest);
        }
        // the best price of what is left is the old best or worse
        if o.len() > 0 {
            assert(opp2.len() > 0);
            assert(!better(o[0].0, opp2[0].0, desc));
            if q2.len() == 0 {
                assert(opp2[0] == opp[1]);
                assert(better(opp[0].0, opp[1].0, desc));
            } else {
                assert(opp2[0].0 == opp[0].0);
            }
            assert(!better(o[0].0, opp[0].0, desc));
        }
        // crossing prices: the taker's limit fields do not change
        assert(crosses(t2, opp[0].0) == crosses(taker, opp[0].0));
        assert forall|p: u64| crosses(t2, p) == crosses(taker, p) by {}
        // fills follow price-time priority
        if a >= m.remaining_quantity {
            lemma_flatten_step(opp, taker.remaining_quantity);
        } else {
            assert(t2.remaining_quantity == 0);
            assert(rest.len() == 0);
        }
        lemma_flatten_front(opp);
        assert forall|i: int| 0 <= i < fills.len() implies (#[trigger] fills[i]).0 == flatten(opp)[i] by {
            if i > 0 {
                assert(fills[i] == rest[i - 1]);
                assert(flatten(opp2)[i - 1] == flatten(opp)[i]);
            }
        }
        assert(fills.len() <= flatten(opp).len()) by {
            if a >= m.remaining_quantity {
                assert(flatten(opp2).len() + 1 == flatten(opp).len());
            }
        }
        assert forall|i: int| 0 <= i < fills.len() implies crosses(taker, (#[trigger] fills[i]).1) by {
            if i > 0 {
                assert(fills[i] == rest[i - 1]);
            }
        }
        assert forall|i: int, j: int| 0 <= i < j < fills.len() implies !better(fills[j].1, fills[i].1, desc) by {
            assert(fills[j] == rest[j - 1]);
            if i > 0 {
                assert(fills[i] == rest[i - 1]);
            } else {
                // rest[0] is at opp2's best price, which is opp's best or worse
                assert(rest[j - 1].1 == rest[0].1 || !better(rest[j - 1].1, rest[0].1, desc));
                assert(opp2.len() > 0);
                if q2.len() == 0 {
                    assert(opp2[0] == opp[1]);
                    assert(better(opp[0].0, opp[1].0, desc));
                }
            }
        }
        assert(t == filled_by(taker, (taker.remaining_quantity - t.remaining_quantity) as u64));
    }
}


pub proof fn lemma_side_add_nonempty(v: Seq<LevelView>, order: Order, desc: bool)
    requires
        queues_nonempty(v),
    ensures
        queues_nonempty(side_add(v, order, desc)),
{
    lemma_insert_pos(v, order.price, desc);
    let k = insert_pos(v, order.price, desc) as int;
    let r = side_add(v, order, desc);
    assert forall|i: int| 0 <= i < r.len() implies (#[trigger] r[i]).1.len() > 0 by {
        if k < v.len() && v[k].0 == order.price {
            if i != k {
                assert(r[i] == v[i]);
            }
        } else if i < k {
            assert(r[i] == v[i]);
        } else if i > k {
            assert(r[i] == v[i - 1]);
        }
    }
}

/// The best price of a side after an order joined it: the old best, or the order's
/// price when that is as good or better.
pub proof fn lemma_side_add_best(v: Seq<LevelView>, order: Order, desc: bool)
    ensures
        side_add(v, order, desc).len() > 0,
        side_add(v, order, desc)[0].0 == order.price || (v.len() > 0 && side_add(v, order, desc)[0].0 == v[0].0),
{
    lemma_insert_pos(v, order.price, desc);
}

/// Processing an order never leaves the book crossed: if the best bid was below the
/// best ask before, it still is afterwards, and both sides stay ordered with no empty
/// level.
pub proof fn law_order_keeps_book_uncrossed(bids: Seq<LevelView>, asks: Seq<LevelView>, order: Order)
    requires
        view_sorted(bids, true),
        view_sorted(asks, false),
        queues_nonempty(bids),
        queues_nonempty(asks),
        uncrossed(bids, asks),
    ensures
        ({
            let (b2, a2, _t, _f) = book_after_order(bids, asks, order);
            &&& uncrossed(b2, a2)
            &&& view_sorted(b2, true)
            &&& view_sorted(a2, false)
            &&& queues_nonempty(b2)
            &&& queues_nonempty(a2)
        }),
{
    let (b2, a2, t, f) = book_after_order(bids, asks, order);
    if order.side == Side::Buy {
        lemma_match_run(order, asks, false);
        let rests = order.order_type == OrderType::Limit && t.remaining_quantity > 0;
        if rests {
            lemma_side_add_sorted(bids, t, true);
            lemma_side_add_nonempty(bids, t, true);
            lemma_side_add_best(bids, t, true);
            if b2.len() > 0 && a2.len() > 0 {
                assert(t.price == order.price);
                assert(!crosses(order, a2[0].0));
                if b2[0].0 != t.price {
                    assert(bids[0].0 < asks[0].0);
                }
            }
        }
    } else {
        lemma_match_run(order, bids, true);
        let rests = order.order_type == OrderType::Limit && t.remaining_quantity > 0;
        if rests {
            lemma_side_add_sorted(asks, t, false);
            lemma_side_add_nonempty(asks, t, false);
            lemma_side_add_best(asks, t, false);
            if b2.len() > 0 && a2.len() > 0 {
                assert(t.price == order.price);
                assert(!crosses(order, b2[0].0));
                if a2[0].0 != t.price {
                    assert(bids[0].0 < asks[0].0);
                }
            }
        }
    }
}


/// Taking an order out of a level of a side keeps every level non-empty and only moves
/// the best price away from the other side.
pub proof fn lemma_side_take_shape(v: Seq<LevelView>, price: u64, id: Seq<char>, known: bool, desc: bool)
    requires
        view_sorted(v, desc),
        queues_nonempty(v),
    ensures
        queues_nonempty(side_take(v, price, id, known).1),
        side_take(v, price, id, known).1.len() > 0 ==> v.len() > 0 && !better(side_take(v, price, id, known).1[0].0, v[0].0, desc),
{
    let k = first_pos(level_prices(v), price) as int;
    let r = side_take(v, price, id, known).1;
    lemma_first_pos(level_prices(v), price);
    if k < v.len() {
        if r.len() < v.len() {
            assert(r =~= v.remove(k));
            assert forall|i: int| 0 <= i < r.len() implies (#[trigger] r[i]).1.len() > 0 by {
                if i < k {
                    assert(r[i] == v[i]);
                } else {
                    assert(r[i] == v[i + 1]);
                }
            }
            if r.len() > 0 && k == 0 {
                assert(r[0] == v[1]);
                assert(better(v[0].0, v[1].0, desc));
            } else if r.len() > 0 {
                assert(r[0] == v[0]);
            }
        } else {
            let q = v[k].1;
            let i = id_pos(q, id) as int;
            lemma_id_pos(q, id);
            assert forall|j: int| 0 <= j < r.len() implies (#[trigger] r[j]).1.len() > 0 by {
                if j != k {
                    assert(r[j] == v[j]);
                }
            }
            assert(r[0].0 == v[0].0);
        }
    }
}


/// Price-time priority: the orders a taker executes against are the first resting
/// orders of the opposite side in priority order (best price first, oldest first
/// within a price), every execution is at a price the taker accepts, and the prices
/// never improve from one execution to the next.
pub proof fn law_price_time_priority(taker: Order, opp: Seq<LevelView>, desc: bool)
    requires
        view_sorted(opp, desc),
        queues_nonempty(opp),
    ensures
        ({
            let fills = match_run(taker, opp).2;
            &&& fills.len() <= flatten(opp).len()
            &&& forall|i: int| 0 <= i < fills.len() ==> (#[trigger] fills[i]).0 == flatten(opp)[i]
            &&& forall|i: int| 0 <= i < fills.len() ==> crosses(taker, (#[trigger] fills[i]).1)
            &&& forall|i: int, j: int| 0 <= i < j < fills.len() ==> !better(fills[j].1, fills[i].1, desc)
        }),
{
    lemma_match_run(taker, opp, desc);
}

/// Quantity is conserved: what the executions add up to is exactly what the taker
/// loses and exactly what the opposite side loses.
pub proof fn law_quantity_conservation(taker: Order, opp: Seq<LevelView>, desc: bool)
    requires
        view_sorted(opp, desc),
        queues_nonempty(opp),
    ensures
        ({
            let (t, o, fills) = match_run(taker, opp);
            &&& filled_total(fills) + t.remaining_quantity == taker.remaining_quantity
            &&& side_volume(o) + filled_total(fills) == side_volume(opp)
        }),
{
    lemma_match_run(taker, opp, desc);
}

/// A taker stops with quantity left only when nothing it accepts rests on the
/// opposite side any more.
pub proof fn law_no_missed_match(taker: Order, opp: Seq<LevelView>, desc: bool)
    requires
        desc == (taker.side == Side::Sell),
        view_sorted(opp, desc),
        queues_nonempty(opp),
    ensures
        ({
            let (t, o, fills) = match_run(taker, opp);
            t.remaining_quantity > 0 ==> forall|i: int| 0 <= i < o.len() ==> !crosses(taker, #[trigger] o[i].0)
        }),
{
    lemma_match_run(taker, opp, desc);
    let (t, o, fills) = match_run(taker, opp);
    if t.remaining_quantity > 0 && o.len() > 0 {
        assert forall|i: int| 0 <= i < o.len() implies !crosses(taker, #[trigger] o[i].0) by {
            if i > 0 {
                assert(better(o[0].0, o[i].0, desc));
            }
        }
    }
}

} // verus!
