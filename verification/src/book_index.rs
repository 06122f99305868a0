//! The ids resting in a book, and the book's id index kept exact: every resting order
//! is indexed under its side and price and recorded by its level, and no id rests
//! twice. Adding an order with a new id and cancelling an indexed one keep this, and
//! then the index holds as many entries as the book holds orders.

use vstd::prelude::*;
use vstd::multiset::Multiset;
use crate::model::{Order, Side};
use crate::keys::{first_pos, lemma_first_pos};
use crate::order_book::{
    LevelView, OrderBook, PriceLevel, match_amount, queue_after_match, better, book_added, cancel_found, cancelled_book, count_orders, id_pos, insert_pos,
    lemma_id_pos, lemma_insert_pos, level_knows, level_prices, side_add, side_take, view_sorted,
};

verus! {

broadcast use vstd::multiset::group_multiset_axioms;

/// The ids of a queue of orders, in order.
pub open spec fn level_ids(q: Seq<Order>) -> Seq<Seq<char>> {
    q.map_values(|o: Order| o.id@)
}

/// The ids of the orders resting on a side, best level first and oldest first.
pub open spec fn side_ids(v: Seq<LevelView>) -> Seq<Seq<char>>
    decreases v.len(),
{
    if v.len() == 0 {
        Seq::empty()
    } else {
        level_ids(v[0].1) + side_ids(v.drop_first())
    }
}

pub proof fn lemma_side_ids_concat(a: Seq<LevelView>, b: Seq<LevelView>)
    ensures
        side_ids(a + b) == side_ids(a) + side_ids(b),
    decreases a.len(),
{
    if a.len() == 0 {
        assert(a + b =~= b);
        assert(side_ids(a) + side_ids(b) =~= side_ids(b));
    } else {
        lemma_side_ids_concat(a.drop_first(), b);
        assert((a + b).drop_first() =~= a.drop_first() + b);
        assert((a + b)[0] == a[0]);
        assert(level_ids(a[0].1) + (side_ids(a.drop_first()) + side_ids(b)) =~= (level_ids(a[0].1) + side_ids(
            a.drop_first(),
        )) + side_ids(b));
    }
}

pub proof fn lemma_side_ids_single(l: LevelView)
    ensures
        side_ids(seq![l]) == level_ids(l.1),
{
    assert(seq![l].drop_first() =~= Seq::<LevelView>::empty());
    assert(side_ids(Seq::<LevelView>::empty()) =~= Seq::<Seq<char>>::empty());
    assert(seq![l][0] == l);
    assert(level_ids(l.1) + Seq::<Seq<char>>::empty() =~= level_ids(l.1));
}

pub proof fn lemma_side_ids_len(v: Seq<LevelView>)
    ensures
        side_ids(v).len() == count_orders(v),
    decreases v.len(),
{
    if v.len() > 0 {
        lemma_side_ids_len(v.drop_first());
    }
}

/// The multiset of the ids of a side, cut around its level `k`.
pub proof fn lemma_side_ids_around(v: Seq<LevelView>, k: int)
    requires
        0 <= k < v.len(),
    ensures
        side_ids(v).to_multiset() == side_ids(v.take(k)).to_multiset().add(level_ids(v[k].1).to_multiset()).add(
            side_ids(v.skip(k + 1)).to_multiset(),
        ),
{
    assert(v =~= v.take(k) + seq![v[k]] + v.skip(k + 1));
    lemma_side_ids_concat(v.take(k) + seq![v[k]], v.skip(k + 1));
    lemma_side_ids_concat(v.take(k), seq![v[k]]);
    lemma_side_ids_single(v[k]);
    let a = side_ids(v.take(k));
    let x = level_ids(v[k].1);
    let c = side_ids(v.skip(k + 1));
    vstd::seq_lib::lemma_multiset_commutative(a + x, c);
    vstd::seq_lib::lemma_multiset_commutative(a, x);
}

/// The multiset of the ids of a side with the level `l` put in at `k`.
pub proof fn lemma_side_ids_insert(v: Seq<LevelView>, k: int, l: LevelView)
    requires
        0 <= k <= v.len(),
    ensures
        side_ids(v.insert(k, l)).to_multiset() == side_ids(v).to_multiset().add(level_ids(l.1).to_multiset()),
{
    assert(v.insert(k, l) =~= v.take(k) + seq![l] + v.skip(k));
    assert(v =~= v.take(k) + v.skip(k));
    lemma_side_ids_concat(v.take(k) + seq![l], v.skip(k));
    lemma_side_ids_concat(v.take(k), seq![l]);
    lemma_side_ids_concat(v.take(k), v.skip(k));
    lemma_side_ids_single(l);
    let a = side_ids(v.take(k));
    let x = level_ids(l.1);
    let c = side_ids(v.skip(k));
    vstd::seq_lib::lemma_multiset_commutative(a + x, c);
    vstd::seq_lib::lemma_multiset_commutative(a, x);
    vstd::seq_lib::lemma_multiset_commutative(a, c);
    assert(side_ids(v.insert(k, l)).to_multiset() =~= side_ids(v).to_multiset().add(x.to_multiset()));
}

/// The multiset of the ids of a side whose level `k` was replaced by `l`.
pub proof fn lemma_side_ids_update(v: Seq<LevelView>, k: int, l: LevelView)
    requires
        0 <= k < v.len(),
    ensures
        side_ids(v.update(k, l)).to_multiset().add(level_ids(v[k].1).to_multiset()) == side_ids(v).to_multiset().add(
            level_ids(l.1).to_multiset(),
        ),
{
    lemma_side_ids_around(v, k);
    lemma_side_ids_around(v.update(k, l), k);
    assert(v.update(k, l).take(k) =~= v.take(k));
    assert(v.update(k, l).skip(k + 1) =~= v.skip(k + 1));
    assert(side_ids(v.update(k, l)).to_multiset().add(level_ids(v[k].1).to_multiset()) =~= side_ids(v).to_multiset().add(
        level_ids(l.1).to_multiset(),
    ));
}

/// The multiset of the ids of a side without its level `k`.
pub proof fn lemma_side_ids_remove(v: Seq<LevelView>, k: int)
    requires
        0 <= k < v.len(),
    ensures
        side_ids(v.remove(k)).to_multiset().add(level_ids(v[k].1).to_multiset()) == side_ids(v).to_multiset(),
{
    lemma_side_ids_around(v, k);
    assert(v.remove(k) =~= v.take(k) + v.skip(k + 1));
    lemma_side_ids_concat(v.take(k), v.skip(k + 1));
    vstd::seq_lib::lemma_multiset_commutative(side_ids(v.take(k)), side_ids(v.skip(k + 1)));
    assert(side_ids(v.remove(k)).to_multiset().add(level_ids(v[k].1).to_multiset()) =~= side_ids(v).to_multiset());
}

/// Adding an order to a side adds its id to the side's ids.
pub proof fn lemma_side_ids_add(v: Seq<LevelView>, o: Order, desc: bool)
    ensures
        side_ids(side_add(v, o, desc)).to_multiset() == side_ids(v).to_multiset().insert(o.id@),
{
    let k = insert_pos(v, o.price, desc) as int;
    lemma_insert_pos(v, o.price, desc);
    if k < v.len() && v[k].0 == o.price {
        let q = v[k].1;
        lemma_side_ids_update(v, k, (o.price, q.push(o)));
        assert(level_ids(q.push(o)) =~= level_ids(q).push(o.id@));
        vstd::seq_lib::to_multiset_build(level_ids(q), o.id@);
        let s1 = side_ids(side_add(v, o, desc)).to_multiset();
        let s0 = side_ids(v).to_multiset();
        let xm = level_ids(q).to_multiset();
        let ym = level_ids(q.push(o)).to_multiset();
        assert(ym =~= xm.insert(o.id@));
        assert forall|x: Seq<char>| s1.count(x) == s0.insert(o.id@).count(x) by {
            assert(s1.add(xm).count(x) == s0.add(ym).count(x));
        }
        assert(s1 =~= s0.insert(o.id@));
    } else {
        lemma_side_ids_insert(v, k, (o.price, seq![o]));
        assert(level_ids(seq![o]) =~= Seq::<Seq<char>>::empty().push(o.id@));
        vstd::seq_lib::to_multiset_build(Seq::<Seq<char>>::empty(), o.id@);
        vstd::seq_lib::to_multiset_len(Seq::<Seq<char>>::empty());
        let e = Seq::<Seq<char>>::empty().to_multiset();
        assert(e.len() == 0);
        assert forall|x: Seq<char>| e.count(x) == 0 by {
            if e.count(x) > 0 {
                assert(e.contains(x));
            }
        }
        assert(e =~= Multiset::<Seq<char>>::empty());
        let s1 = side_ids(side_add(v, o, desc)).to_multiset();
        let s0 = side_ids(v).to_multiset();
        assert(level_ids(seq![o]).to_multiset() =~= Multiset::<Seq<char>>::empty().insert(o.id@));
        assert(s1 =~= s0.insert(o.id@));
    }
}

proof fn lemma_empty_multiset(s: Seq<Seq<char>>)
    requires
        s.len() == 0,
    ensures
        s.to_multiset() =~= Multiset::<Seq<char>>::empty(),
{
    vstd::seq_lib::to_multiset_len(s);
    let e = s.to_multiset();
    assert forall|x: Seq<char>| e.count(x) == 0 by {
        if e.count(x) > 0 {
            assert(e.contains(x));
        }
    }
}

/// Taking an order out of a side takes its id, `id` itself, off the side's ids; when
/// no order comes out, the ids stay.
pub proof fn lemma_side_ids_take(v: Seq<LevelView>, price: u64, id: Seq<char>, known: bool)
    ensures
        ({
            let (f, v2) = side_take(v, price, id, known);
            match f {
                Some(o) => o.id@ == id && side_ids(v2).to_multiset() == side_ids(v).to_multiset().remove(id),
                None => side_ids(v2).to_multiset() == side_ids(v).to_multiset(),
            }
        }),
{
    let k = first_pos(level_prices(v), price) as int;
    lemma_first_pos(level_prices(v), price);
    let (f, v2) = side_take(v, price, id, known);
    if k < v.len() {
        let q = v[k].1;
        let i = id_pos(q, id) as int;
        lemma_id_pos(q, id);
        let found = known && i < q.len();
        let q2 = if found { q.remove(i) } else { q };
        let s0 = side_ids(v).to_multiset();
        let s2 = side_ids(v2).to_multiset();
        let qm = level_ids(q).to_multiset();
        let q2m = level_ids(q2).to_multiset();
        if found {
            assert(level_ids(q2) =~= level_ids(q).remove(i));
            vstd::seq_lib::to_multiset_remove(level_ids(q), i);
            assert(level_ids(q)[i] == id);
            vstd::seq_lib::to_multiset_contains(level_ids(q), id);
            assert(level_ids(q).contains(id));
            assert(qm.count(id) > 0);
            assert forall|x: Seq<char>| qm.count(x) == q2m.insert(id).count(x) by {}
        }
        if q2.len() == 0 {
            lemma_side_ids_remove(v, k);
            lemma_empty_multiset(level_ids(q2));
        } else {
            lemma_side_ids_update(v, k, (v[k].0, q2));
        }
        if found {
            assert forall|x: Seq<char>| s2.count(x) == s0.remove(id).count(x) by {
                if q2.len() == 0 {
                    assert(s2.add(qm).count(x) == s0.count(x));
                } else {
                    assert(s2.add(qm).count(x) == s0.add(q2m).count(x));
                }
            }
            assert(s2 =~= s0.remove(id));
        } else {
            if q2.len() == 0 {
                lemma_empty_multiset(level_ids(q));
                assert(s2 =~= s0) by {
                    assert forall|x: Seq<char>| s2.count(x) == s0.count(x) by {
                        assert(s2.add(qm).count(x) == s0.count(x));
                    }
                }
            } else {
                assert(v2 =~= v);
            }
        }
    }
}

/// Whether an order with id `id` rests on the side `v` in its level at `price`.
pub open spec fn side_holds(v: Seq<LevelView>, price: u64, id: Seq<char>) -> bool {
    exists|j: int, i: int|
        0 <= j < v.len() && 0 <= i < v[j].1.len() && #[trigger] v[j].1[i].id@ == id && v[j].0 == price
}

/// Adding an order keeps every order where it rests, and the order added rests in the
/// level at its price.
pub proof fn lemma_holds_add(v: Seq<LevelView>, o: Order, desc: bool, price: u64, id: Seq<char>)
    ensures
        side_holds(v, price, id) ==> side_holds(side_add(v, o, desc), price, id),
        side_holds(side_add(v, o, desc), o.price, o.id@),
{
    let k = insert_pos(v, o.price, desc) as int;
    lemma_insert_pos(v, o.price, desc);
    let r = side_add(v, o, desc);
    let grew = !(k < v.len() && v[k].0 == o.price);
    if side_holds(v, price, id) {
        let (j, i) = choose|j: int, i: int|
            0 <= j < v.len() && 0 <= i < v[j].1.len() && #[trigger] v[j].1[i].id@ == id && v[j].0 == price;
        if !grew {
            if j == k {
                assert(r[k].1[i] == v[k].1[i]);
                assert(r[k].1[i].id@ == id);
            } else {
                assert(r[j] == v[j]);
                assert(r[j].1[i].id@ == id);
            }
        } else if j < k {
            assert(r[j] == v[j]);
            assert(r[j].1[i].id@ == id);
        } else {
            assert(r[j + 1] == v[j]);
            assert(r[j + 1].1[i].id@ == id);
        }
    }
    if !grew {
        let n = v[k].1.len() as int;
        assert(r[k].1[n] == o);
        assert(r[k].1[n].id@ == o.id@);
    } else {
        assert(r[k].1[0] == o);
        assert(r[k].1[0].id@ == o.id@);
    }
}

/// Taking out an order with id `t` keeps every order with another id where it rests.
pub proof fn lemma_holds_take(v: Seq<LevelView>, price: u64, t: Seq<char>, known: bool, p: u64, id: Seq<char>)
    requires
        id != t,
        side_holds(v, p, id),
    ensures
        side_holds(side_take(v, price, t, known).1, p, id),
{
    let k = first_pos(level_prices(v), price) as int;
    lemma_first_pos(level_prices(v), price);
    let r = side_take(v, price, t, known).1;
    let (j, i) = choose|j: int, i: int|
        0 <= j < v.len() && 0 <= i < v[j].1.len() && #[trigger] v[j].1[i].id@ == id && v[j].0 == p;
    if k < v.len() {
        let q = v[k].1;
        let i0 = id_pos(q, t) as int;
        lemma_id_pos(q, t);
        let found = known && i0 < q.len();
        let q2 = if found { q.remove(i0) } else { q };
        if j == k {
            let i2 = if found && i > i0 { i - 1 } else { i };
            if found {
                assert(i != i0);
            }
            assert(q2[i2] == q[i]);
            assert(q2.len() > 0);
            assert(r[k].1 == q2);
            assert(r[k].1[i2].id@ == id);
        } else if q2.len() == 0 && j > k {
            assert(r[j - 1] == v[j]);
            assert(r[j - 1].1[i].id@ == id);
        } else {
            assert(r[j] == v[j]);
            assert(r[j].1[i].id@ == id);
        }
    }
}

/// On a sorted side, the level at `price` gives an order back for `t` when `t` rests
/// there and the level records it.
pub proof fn lemma_holds_found(v: Seq<LevelView>, price: u64, t: Seq<char>, desc: bool)
    requires
        view_sorted(v, desc),
        side_holds(v, price, t),
    ensures
        side_take(v, price, t, true).0 is Some,
{
    let ps = level_prices(v);
    lemma_first_pos(ps, price);
    let k = first_pos(ps, price) as int;
    let (j, i) = choose|j: int, i: int|
        0 <= j < v.len() && 0 <= i < v[j].1.len() && #[trigger] v[j].1[i].id@ == t && v[j].0 == price;
    assert(ps[j] == v[j].0);
    assert(k <= j);
    if k < j {
        assert(ps[k] == v[k].0);
        assert(better(v[k].0, v[j].0, desc));
    }
    lemma_id_pos(v[k].1, t);
}

/// An order resting on a side has its id among the side's ids.
pub proof fn lemma_holds_counts(v: Seq<LevelView>, price: u64, id: Seq<char>)
    requires
        side_holds(v, price, id),
    ensures
        side_ids(v).to_multiset().count(id) >= 1,
{
    let (j, i) = choose|j: int, i: int|
        0 <= j < v.len() && 0 <= i < v[j].1.len() && #[trigger] v[j].1[i].id@ == id && v[j].0 == price;
    lemma_side_ids_around(v, j);
    assert(level_ids(v[j].1)[i] == id);
    vstd::seq_lib::to_multiset_contains(level_ids(v[j].1), id);
    assert(level_ids(v[j].1).contains(id));
}

/// The ids resting in a book, as a multiset.
pub open spec fn book_ids(b: OrderBook) -> Multiset<Seq<char>> {
    side_ids(b.bids_view()).to_multiset().add(side_ids(b.asks_view()).to_multiset())
}

/// Where the index puts `id`: on the recorded side, in the level at the recorded price,
/// which also records the id.
pub open spec fn located(b: OrderBook, id: Seq<char>) -> bool {
    let (side, price) = b.orders@[id];
    if side == Side::Buy {
        side_holds(b.bids_view(), price, id) && level_knows(b.bids@, price, id)
    } else {
        side_holds(b.asks_view(), price, id) && level_knows(b.asks@, price, id)
    }
}

/// The book's index is exact: no id rests twice, the index holds exactly the ids that
/// rest, and each indexed order rests where the index says, recorded by its level.
pub open spec fn book_exact(b: OrderBook) -> bool {
    &&& forall|id: Seq<char>| #[trigger] book_ids(b).count(id) <= 1
    &&& forall|id: Seq<char>| #[trigger] b.orders@.contains_key(id) == (book_ids(b).count(id) > 0)
    &&& forall|id: Seq<char>| #[trigger] b.orders@.contains_key(id) ==> located(b, id)
}

/// A book with no level and an empty index is exact.
pub proof fn law_empty_book_exact(b: OrderBook)
    requires
        b.bids@.len() == 0,
        b.asks@.len() == 0,
        b.orders@ == Map::<Seq<char>, (Side, u64)>::empty(),
    ensures
        book_exact(b),
{
    assert(side_ids(b.bids_view()) =~= Seq::<Seq<char>>::empty());
    assert(side_ids(b.asks_view()) =~= Seq::<Seq<char>>::empty());
    lemma_empty_multiset(side_ids(b.bids_view()));
    lemma_empty_multiset(side_ids(b.asks_view()));
    assert(book_ids(b) =~= Multiset::<Seq<char>>::empty());
}

/// In a book whose index is exact, the index holds as many entries as the book holds
/// orders.
pub proof fn law_exact_index_counts(b: OrderBook)
    requires
        book_exact(b),
    ensures
        b.orders@.dom().finite(),
        b.orders@.len() == count_orders(b.bids_view()) + count_orders(b.asks_view()),
{
    let ids = side_ids(b.bids_view()) + side_ids(b.asks_view());
    vstd::seq_lib::lemma_multiset_commutative(side_ids(b.bids_view()), side_ids(b.asks_view()));
    assert(ids.to_multiset() == book_ids(b));
    assert forall|x: Seq<char>| ids.to_multiset().contains(x) implies ids.to_multiset().count(x) == 1 by {
        assert(book_ids(b).count(x) <= 1);
    }
    ids.lemma_multiset_has_no_duplicates_conv();
    ids.unique_seq_to_set();
    assert forall|x: Seq<char>| b.orders@.dom().contains(x) == ids.to_set().contains(x) by {
        vstd::seq_lib::to_multiset_contains(ids, x);
        assert(b.orders@.contains_key(x) == (book_ids(b).count(x) > 0));
    }
    assert(b.orders@.dom() =~= ids.to_set());
    lemma_side_ids_len(b.bids_view());
    lemma_side_ids_len(b.asks_view());
}

/// Adding an order with an id the index does not hold keeps the index exact.
pub proof fn law_add_keeps_index_exact(b: OrderBook, o: Order, b1: OrderBook)
    requires
        book_exact(b),
        !b.orders@.contains_key(o.id@),
        book_added(b, o, b1),
    ensures
        book_exact(b1),
        book_ids(b1) == book_ids(b).insert(o.id@),
{
    let desc = o.side == Side::Buy;
    if o.side == Side::Buy {
        lemma_side_ids_add(b.bids_view(), o, true);
        assert(b1.asks_view() == b.asks_view());
    } else {
        lemma_side_ids_add(b.asks_view(), o, false);
        assert(b1.bids_view() == b.bids_view());
    }
    assert(book_ids(b1) =~= book_ids(b).insert(o.id@));
    assert(book_ids(b).count(o.id@) == 0);
    assert forall|id: Seq<char>| #[trigger] b1.orders@.contains_key(id) implies located(b1, id) by {
        if o.side == Side::Buy {
            lemma_holds_add(b.bids_view(), o, true, b1.orders@[id].1, id);
        } else {
            lemma_holds_add(b.asks_view(), o, false, b1.orders@[id].1, id);
        }
        if id != o.id@ {
            assert(b.orders@.contains_key(id));
            assert(located(b, id));
            assert(b1.orders@[id] == b.orders@[id]);
            let (side, price) = b.orders@[id];
            if side == Side::Buy {
                assert(level_knows(b1.bids@, price, id));
            } else {
                assert(level_knows(b1.asks@, price, id));
            }
        } else {
            if o.side == Side::Buy {
                assert(level_knows(b1.bids@, o.price, o.id@));
            } else {
                assert(level_knows(b1.asks@, o.price, o.id@));
            }
        }
    }
}

/// In a well-formed book whose index is exact, cancelling an indexed id takes out the
/// order with that id, and keeps the index exact.
pub proof fn law_cancel_keeps_index_exact(b: OrderBook, t: Seq<char>, b2: OrderBook)
    requires
        b.wf(),
        book_exact(b),
        b.orders@.contains_key(t),
        cancelled_book(b, t, b2),
    ensures
        cancel_found(b, t) matches Some(o) && o.id@ == t,
        book_exact(b2),
        book_ids(b2) == book_ids(b).remove(t),
{
    let (side, price) = b.orders@[t];
    assert(located(b, t));
    if side == Side::Buy {
        assert(level_knows(b.bids@, price, t));
        lemma_holds_found(b.bids_view(), price, t, true);
        lemma_side_ids_take(b.bids_view(), price, t, true);
        assert(b2.asks_view() == b.asks_view());
        assert(b2.bids_view() == side_take(b.bids_view(), price, t, true).1);
        assert(side_ids(b2.bids_view()).to_multiset() == side_ids(b.bids_view()).to_multiset().remove(t));
    } else {
        assert(level_knows(b.asks@, price, t));
        lemma_holds_found(b.asks_view(), price, t, false);
        lemma_side_ids_take(b.asks_view(), price, t, true);
        assert(b2.bids_view() == b.bids_view());
        assert(b2.asks_view() == side_take(b.asks_view(), price, t, true).1);
        assert(side_ids(b2.asks_view()).to_multiset() == side_ids(b.asks_view()).to_multiset().remove(t));
    }
    assert(book_ids(b).count(t) == 1);
    assert forall|x: Seq<char>| book_ids(b2).count(x) == book_ids(b).remove(t).count(x) by {
        if side == Side::Buy {
            if x == t {
                lemma_holds_counts(b.bids_view(), price, t);
            }
        } else {
            if x == t {
                lemma_holds_counts(b.asks_view(), price, t);
            }
        }
    }
    assert(book_ids(b2) =~= book_ids(b).remove(t));
    assert forall|id: Seq<char>| #[trigger] b2.orders@.contains_key(id) implies located(b2, id) by {
        assert(id != t);
        assert(b.orders@.contains_key(id));
        assert(located(b, id));
        assert(b2.orders@[id] == b.orders@[id]);
        let (s2, p2) = b.orders@[id];
        if s2 == Side::Buy {
            if side == Side::Buy {
                lemma_holds_take(b.bids_view(), price, t, true, p2, id);
            }
            assert(level_knows(b2.bids@, p2, id));
        } else {
            if side == Side::Sell {
                lemma_holds_take(b.asks_view(), price, t, true, p2, id);
            }
            assert(level_knows(b2.asks@, p2, id));
        }
    }
}

/// A level whose ids are exact: no two orders share an id, and the ids recorded are
/// exactly those of its orders.
pub open spec fn level_exact(l: PriceLevel) -> bool {
    &&& level_ids(l@).no_duplicates()
    &&& forall|id: Seq<char>| #[trigger] l.indexed().contains(id) == level_ids(l@).contains(id)
}

/// In a level whose ids are exact, every order held can be taken out by its id: its id
/// is recorded, and the order found by it is that order.
pub proof fn law_level_exact_removable(l: PriceLevel, i: int)
    requires
        level_exact(l),
        0 <= i < l@.len(),
    ensures
        l.indexed().contains(l@[i].id@),
        id_pos(l@, l@[i].id@) == i,
{
    let id = l@[i].id@;
    assert(level_ids(l@)[i] == id);
    assert(level_ids(l@).contains(id));
    lemma_id_pos(l@, id);
    let k = id_pos(l@, id) as int;
    if k != i {
        if k < l@.len() {
            assert(level_ids(l@)[k] == id);
        }
        assert(false);
    }
}

/// Adding an order with an id the level does not hold keeps its ids exact.
pub proof fn law_level_add_keeps_exact(l0: PriceLevel, o: Order, l1: PriceLevel)
    requires
        level_exact(l0),
        !level_ids(l0@).contains(o.id@),
        l1@ == l0@.push(o),
        l1.indexed() == l0.indexed().insert(o.id@),
    ensures
        level_exact(l1),
{
    assert(level_ids(l1@) =~= level_ids(l0@).push(o.id@));
    assert forall|id: Seq<char>| #[trigger] l1.indexed().contains(id) == level_ids(l1@).contains(id) by {
        if level_ids(l1@).contains(id) {
            let j = choose|j: int| 0 <= j < level_ids(l1@).len() && level_ids(l1@)[j] == id;
            if j < l0@.len() {
                assert(level_ids(l0@)[j] == id);
            }
        }
        if level_ids(l0@).contains(id) {
            let j = choose|j: int| 0 <= j < level_ids(l0@).len() && level_ids(l0@)[j] == id;
            assert(level_ids(l1@)[j] == id);
        }
        if id == o.id@ {
            assert(level_ids(l1@)[l0@.len() as int] == id);
        }
    }
}

/// Taking out the order at `i` and forgetting its id keeps the level's ids exact; so do
/// a removal by id and a full execution of the first order (the order taken out and
/// the id forgotten are then those of the same order).
pub proof fn law_level_take_keeps_exact(l0: PriceLevel, i: int, l1: PriceLevel)
    requires
        level_exact(l0),
        0 <= i < l0@.len(),
        l1@ == l0@.remove(i),
        l1.indexed() == l0.indexed().remove(l0@[i].id@),
    ensures
        level_exact(l1),
{
    let t = l0@[i].id@;
    assert(level_ids(l1@) =~= level_ids(l0@).remove(i));
    assert forall|id: Seq<char>| #[trigger] l1.indexed().contains(id) == level_ids(l1@).contains(id) by {
        if level_ids(l1@).contains(id) {
            let j = choose|j: int| 0 <= j < level_ids(l1@).len() && level_ids(l1@)[j] == id;
            let j0 = if j < i { j } else { j + 1 };
            assert(level_ids(l0@)[j0] == id);
            assert(level_ids(l0@)[i] == t);
        }
        if level_ids(l0@).contains(id) && id != t {
            let j = choose|j: int| 0 <= j < level_ids(l0@).len() && level_ids(l0@)[j] == id;
            assert(j != i);
            let j1 = if j < i { j } else { j - 1 };
            assert(level_ids(l1@)[j1] == id);
        }
    }
}

/// Executing part of the first order keeps the level's ids exact.
pub proof fn law_level_partial_keeps_exact(l0: PriceLevel, quantity: u64, l1: PriceLevel)
    requires
        level_exact(l0),
        l0@.len() > 0,
        match_amount(l0@[0], quantity) < l0@[0].remaining_quantity,
        l1@ == queue_after_match(l0@, quantity),
        l1.indexed() == l0.indexed(),
    ensures
        level_exact(l1),
{
    assert(level_ids(l1@) =~= level_ids(l0@));
}

/// Adding and cancelling keep a book's symbol.
pub proof fn law_book_keeps_symbol(b: OrderBook, o: Order, b1: OrderBook, t: Seq<char>, b2: OrderBook)
    requires
        book_added(b, o, b1),
        cancelled_book(b1, t, b2),
    ensures
        b1.symbol == b.symbol,
        b2.symbol == b.symbol,
{
}

} // verus!




