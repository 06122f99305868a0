//! Price levels (the time-ordered queue of orders at one price) and order books
//! (bid and ask levels of one symbol, best price first).

use vstd::prelude::*;
use vstd::hash_map::StringHashMap;
use crate::model::{Order, Side, OrderBookSnapshot, filled_by};
use crate::keys::{first_pos, lemma_first_pos, lemma_first_pos_at};

verus! {

/// Sum of the remaining quantities of a sequence of orders.
pub open spec fn volume(s: Seq<Order>) -> nat
    decreases s.len(),
{
    if s.len() == 0 {
        0
    } else {
        s[0].remaining_quantity as nat + volume(s.drop_first())
    }
}

/// Position of the last order with id `id` in `s` (the one added most recently), or
/// `s.len()` if there is none.
pub open spec fn id_pos(s: Seq<Order>, id: Seq<char>) -> nat
    decreases s.len(),
{
    if s.len() == 0 {
        0
    } else if s.last().id@ == id {
        (s.len() - 1) as nat
    } else if id_pos(s.drop_last(), id) < s.len() - 1 {
        id_pos(s.drop_last(), id)
    } else {
        s.len()
    }
}

/// What a match of `quantity` executes against the order `maker`.
pub open spec fn match_amount(maker: Order, quantity: u64) -> u64 {
    if quantity <= maker.remaining_quantity {
        quantity
    } else {
        maker.remaining_quantity
    }
}

/// The queue after its first order was matched for `quantity`: the first order leaves
/// when it is executed in full, and is reduced otherwise.
pub open spec fn queue_after_match(s: Seq<Order>, quantity: u64) -> Seq<Order> {
    let m = s[0];
    let a = match_amount(m, quantity);
    if a >= m.remaining_quantity {
        s.drop_first()
    } else {
        s.update(0, filled_by(m, a))
    }
}

pub proof fn lemma_volume_push(s: Seq<Order>, o: Order)
    ensures
        volume(s.push(o)) == volume(s) + o.remaining_quantity,
    decreases s.len(),
{
    if s.len() == 0 {
        assert(s.push(o).drop_first() =~= Seq::<Order>::empty());
        assert(volume(s.push(o).drop_first()) == 0);
    } else {
        lemma_volume_push(s.drop_first(), o);
        assert(s.push(o).drop_first() =~= s.drop_first().push(o));
    }
}

pub proof fn lemma_volume_remove(s: Seq<Order>, i: int)
    requires
        0 <= i < s.len(),
    ensures
        volume(s.remove(i)) + s[i].remaining_quantity == volume(s),
    decreases s.len(),
{
    if i == 0 {
        assert(s.remove(0) =~= s.drop_first());
    } else {
        lemma_volume_remove(s.drop_first(), i - 1);
        assert(s.remove(i).drop_first() =~= s.drop_first().remove(i - 1));
    }
}

pub proof fn lemma_volume_update_front(s: Seq<Order>, o: Order)
    requires
        s.len() > 0,
    ensures
        volume(s.update(0, o)) + s[0].remaining_quantity == volume(s) + o.remaining_quantity,
{
    assert(s.update(0, o).drop_first() =~= s.drop_first());
}

pub proof fn lemma_volume_bound(s: Seq<Order>, i: int)
    requires
        0 <= i < s.len(),
    ensures
        s[i].remaining_quantity <= volume(s),
    decreases s.len(),
{
    if i > 0 {
        lemma_volume_bound(s.drop_first(), i - 1);
    }
}

pub proof fn lemma_id_pos(s: Seq<Order>, id: Seq<char>)
    ensures
        id_pos(s, id) <= s.len(),
        id_pos(s, id) < s.len() ==> s[id_pos(s, id) as int].id@ == id,
        forall|j: int| id_pos(s, id) < j < s.len() ==> s[j].id@ != id,
        id_pos(s, id) == s.len() ==> forall|j: int| 0 <= j < s.len() ==> s[j].id@ != id,
    decreases s.len(),
{
    if s.len() > 0 && s.last().id@ != id {
        let t = s.drop_last();
        lemma_id_pos(t, id);
        assert forall|j: int| 0 <= j < t.len() implies t[j] == s[j] by {}
        if id_pos(t, id) < t.len() {
            assert(s[id_pos(s, id) as int] == t[id_pos(t, id) as int]);
            assert forall|j: int| id_pos(s, id) < j < s.len() implies s[j].id@ != id by {
                if j < t.len() {
                    assert(t[j] == s[j]);
                }
            }
        } else {
            assert forall|j: int| 0 <= j < s.len() implies s[j].id@ != id by {
                if j < t.len() {
                    assert(t[j] == s[j]);
                }
            }
        }
    }
}

pub proof fn lemma_id_pos_at(s: Seq<Order>, id: Seq<char>, i: int)
    requires
        0 <= i <= s.len(),
        forall|j: int| i < j < s.len() ==> s[j].id@ != id,
        i < s.len() ==> s[i].id@ == id,
        i == s.len() ==> forall|j: int| 0 <= j < s.len() ==> s[j].id@ != id,
    ensures
        id_pos(s, id) == i,
    decreases s.len(),
{
    if s.len() > 0 && i != s.len() - 1 {
        let t = s.drop_last();
        assert(s.last() == s[s.len() - 1]);
        if i == s.len() {
            assert forall|j: int| 0 <= j < t.len() implies t[j].id@ != id by {
                assert(t[j] == s[j]);
            }
            lemma_id_pos_at(t, id, t.len() as int);
        } else {
            assert forall|j: int| i < j < t.len() implies t[j].id@ != id by {
                assert(t[j] == s[j]);
            }
            assert(t[i] == s[i]);
            lemma_id_pos_at(t, id, i);
        }
    }
}

/// Taking out an order with another id keeps an order with id `id` in the sequence.
pub proof fn lemma_id_pos_keep(s: Seq<Order>, k: int, id: Seq<char>)
    requires
        0 <= k < s.len(),
        id_pos(s, id) < s.len(),
        s[k].id@ != id,
    ensures
        id_pos(s.remove(k), id) < s.len() - 1,
{
    lemma_id_pos(s, id);
    let p = id_pos(s, id) as int;
    let t = s.remove(k);
    lemma_id_pos(t, id);
    if id_pos(t, id) == t.len() {
        if p < k {
            assert(t[p] == s[p]);
        } else {
            assert(t[p - 1] == s[p]);
        }
    }
}

/// Where only the orders change but not their ids, the position found by id stays.
pub proof fn lemma_id_pos_same_ids(s: Seq<Order>, t: Seq<Order>, id: Seq<char>)
    requires
        s.len() == t.len(),
        forall|i: int| 0 <= i < s.len() ==> (#[trigger] s[i]).id@ == t[i].id@,
    ensures
        id_pos(s, id) == id_pos(t, id),
    decreases s.len(),
{
    if s.len() > 0 {
        assert(s.last().id@ == t.last().id@) by {
            assert(s[s.len() - 1].id@ == t[t.len() - 1].id@);
        }
        assert forall|i: int| 0 <= i < s.drop_last().len() implies (#[trigger] s.drop_last()[i]).id@
            == t.drop_last()[i].id@ by {
            assert(s.drop_last()[i] == s[i]);
            assert(t.drop_last()[i] == t[i]);
        }
        lemma_id_pos_same_ids(s.drop_last(), t.drop_last(), id);
    }
}

/// All orders resting at one price, oldest first, with the ids by which an order can
/// be taken out.
pub struct PriceLevel {
    /// The orders of the level, oldest first.
    pub orders: Vec<Order>,
    /// The ids by which an order can be taken out: an id is recorded when an order with
    /// it joins, and goes when an order is taken out by it or when the first order,
    /// executed in full, leaves with it.
    pub order_map: StringHashMap<()>,
    /// Sum of the remaining quantities of the orders of the level.
    pub total_volume: u64,
}

impl View for PriceLevel {
    type V = Seq<Order>;

    open spec fn view(&self) -> Seq<Order> {
        self.orders@
    }
}

impl PriceLevel {
    /// The value of the level's volume field.
    pub open spec fn total(&self) -> u64 {
        self.total_volume
    }

    /// The ids by which an order can be taken out.
    pub open spec fn indexed(&self) -> Set<Seq<char>> {
        self.order_map@.dom()
    }

    /// The level's volume field holds the sum of its orders' remaining quantities, and
    /// every id recorded belongs to an order of the level.
    pub open spec fn wf(&self) -> bool {
        &&& self.total() == volume(self@)
        &&& forall|id: Seq<char>| #[trigger] self.indexed().contains(id) ==> id_pos(self@, id) < self@.len()
    }

    /// An empty level.
    pub fn new() -> (r: Self)
        ensures
            r@ == Seq::<Order>::empty(),
            r.indexed() == Set::<Seq<char>>::empty(),
            r.wf(),
    {
        let r = PriceLevel { orders: Vec::new(), order_map: StringHashMap::new(), total_volume: 0 };
        proof {
            assert(r.indexed() =~= Set::<Seq<char>>::empty());
        }
        r
    }

    /// Puts `order` at the back of the queue.
    pub fn add_order(&mut self, order: Order)
        requires
            old(self).wf(),
            old(self).total() + order.remaining_quantity <= u64::MAX,
        ensures
            final(self).wf(),
            final(self)@ == old(self)@.push(order),
            final(self).indexed() == old(self).indexed().insert(order.id@),
    {
        let quantity = order.remaining_quantity;
        proof {
            lemma_volume_push(self.orders@, order);
            assert forall|id: Seq<char>| #[trigger] old(self).indexed().insert(order.id@).contains(id) implies id_pos(
                old(self)@.push(order),
                id,
            ) < old(self)@.len() + 1 by {
                lemma_id_pos_push(old(self)@, order, id);
            }
        }
        self.order_map.insert(order.id.clone(), ());
        self.orders.push(order);
        self.total_volume = self.total_volume + quantity;
        proof {
            assert(self.indexed() =~= old(self).indexed().insert(order.id@));
        }
    }

    /// Takes the order with id `order_id` out of the queue when the id is recorded (the
    /// order added last with it), and forgets the id; otherwise answers none.
    pub fn remove_order(&mut self, order_id: &str) -> (r: Option<Order>)
        requires
            old(self).wf(),
        ensures
            final(self).wf(),
            ({
                let k = id_pos(old(self)@, order_id@);
                if old(self).indexed().contains(order_id@) {
                    &&& k < old(self)@.len()
                    &&& r == Some(old(self)@[k as int])
                    &&& final(self)@ == old(self)@.remove(k as int)
                    &&& final(self).indexed() == old(self).indexed().remove(order_id@)
                } else {
                    &&& r is None
                    &&& final(self)@ == old(self)@
                    &&& final(self).indexed() == old(self).indexed()
                }
            }),
    {
        if !self.order_map.contains_key(order_id) {
            return None;
        }
        self.order_map.remove(order_id);
        let key = order_id.to_owned();
        let i = self.find(&key);
        proof {
            assert(old(self).indexed().contains(order_id@));
            lemma_id_pos(self.orders@, order_id@);
            lemma_volume_remove(self.orders@, i as int);
            lemma_volume_bound(self.orders@, i as int);
            assert forall|id: Seq<char>| #[trigger] old(self).indexed().remove(order_id@).contains(id) implies id_pos(
                old(self)@.remove(i as int),
                id,
            ) < old(self)@.len() - 1 by {
                assert(old(self).indexed().contains(id));
                lemma_id_pos_keep(old(self)@, i as int, id);
            }
        }
        let order = self.orders.remove(i);
        self.total_volume = self.total_volume - order.remaining_quantity;
        proof {
            assert(self.indexed() =~= old(self).indexed().remove(order_id@));
        }
        Some(order)
    }

    /// The first order of the queue, with its id and remaining quantity.
    pub fn peek_front(&self) -> (r: Option<(String, Order, u64)>)
        ensures
            self@.len() == 0 ==> r is None,
            self@.len() > 0 ==> r == Some((self@[0].id, self@[0], self@[0].remaining_quantity)),
    {
        if self.orders.len() == 0 {
            None
        } else {
            let order = self.orders[0].clone();
            let id = order.id.clone();
            let quantity = order.remaining_quantity;
            Some((id, order, quantity))
        }
    }

    /// The remaining quantity of the first order of the queue.
    pub fn get_front_quantity(&self) -> (r: Option<u64>)
        ensures
            self@.len() == 0 ==> r is None,
            self@.len() > 0 ==> r == Some(self@[0].remaining_quantity),
    {
        if self.orders.len() == 0 {
            None
        } else {
            Some(self.orders[0].remaining_quantity)
        }
    }

    /// Matches up to `match_quantity` against the first order of the queue. Returns that
    /// order's id, the order as it stands after the match, and the executed quantity
    /// (the smaller of `match_quantity` and what remained of the order). The order
    /// leaves the queue when nothing of it remains.
    pub fn match_partial(&mut self, match_quantity: u64) -> (r: Option<(String, Order, u64)>)
        requires
            old(self).wf(),
        ensures
            final(self).wf(),
            old(self)@.len() == 0 ==> r is None && final(self)@ == old(self)@,
            old(self)@.len() == 0 ==> final(self).indexed() == old(self).indexed(),
            old(self)@.len() > 0 ==> {
                let m = old(self)@[0];
                let a = match_amount(m, match_quantity);
                &&& r == Some((m.id, filled_by(m, a), a))
                &&& final(self)@ == queue_after_match(old(self)@, match_quantity)
                &&& final(self).indexed() == if a >= m.remaining_quantity {
                    old(self).indexed().remove(m.id@)
                } else {
                    old(self).indexed()
                }
            },
    {
        if self.orders.len() == 0 {
            return None;
        }
        let mut maker = self.orders[0].clone();
        let maker_id = maker.id.clone();
        let current = maker.remaining_quantity;
        let actual = if match_quantity <= current {
            match_quantity
        } else {
            current
        };
        proof {
            lemma_volume_bound(self.orders@, 0);
        }
        self.total_volume = self.total_volume - actual;
        maker.fill(actual);
        if actual >= current {
            proof {
                lemma_volume_remove(self.orders@, 0);
                assert(self.orders@.remove(0) =~= self.orders@.drop_first());
                assert forall|id: Seq<char>| #[trigger] old(self).indexed().remove(maker_id@).contains(id) implies id_pos(
                    old(self)@.remove(0),
                    id,
                ) < old(self)@.len() - 1 by {
                    assert(old(self).indexed().contains(id));
                    lemma_id_pos_keep(old(self)@, 0, id);
                }
            }
            self.order_map.remove(maker_id.as_str());
            self.orders.remove(0);
            proof {
                assert(self.indexed() =~= old(self).indexed().remove(maker_id@));
            }
        } else {
            proof {
                lemma_volume_update_front(self.orders@, maker);
            }
            let updated = maker.clone();
            self.orders.set(0, updated);
            proof {
                assert forall|id: Seq<char>| #[trigger] self.indexed().contains(id) implies id_pos(self@, id)
                    < self@.len() by {
                    assert forall|i: int| 0 <= i < old(self)@.len() implies (#[trigger] old(self)@[i]).id@
                        == self@[i].id@ by {
                        if i == 0 {
                            assert(self@[0] == updated);
                        }
                    }
                    assert(old(self).indexed().contains(id));
                    lemma_id_pos_same_ids(old(self)@, self@, id);
                }
            }
        }
        Some((maker_id, maker, actual))
    }

    fn find(&self, key: &String) -> (r: usize)
        ensures
            r == id_pos(self@, key@),
    {
        let n = self.orders.len();
        let mut i: usize = n;
        while i > 0
            invariant
                n == self.orders@.len(),
                i <= n,
                forall|j: int| i <= j < n ==> self.orders@[j].id@ != key@,
            decreases i,
        {
            i = i - 1;
            if self.orders[i].id == *key {
                proof {
                    lemma_id_pos_at(self.orders@, key@, i as int);
                }
                return i;
            }
        }
        proof {
            lemma_id_pos_at(self.orders@, key@, n as int);
        }
        n
    }

    /// Whether the level holds no order.
    pub fn is_empty(&self) -> (r: bool)
        ensures
            r == (self@.len() == 0),
    {
        self.orders.len() == 0
    }

    /// Number of orders in the level.
    pub fn len(&self) -> (r: usize)
        ensures
            r == self@.len(),
    {
        self.orders.len()
    }
}


/// A level seen as its price and its queue of orders.
pub type LevelView = (u64, Seq<Order>);

/// Whether price `p` comes before price `q` on a side: higher first for bids
/// (`desc`), lower first for asks.
pub open spec fn better(p: u64, q: u64, desc: bool) -> bool {
    if desc {
        p > q
    } else {
        p < q
    }
}

/// The levels of a side as (price, queue).
pub open spec fn side_view(levels: Seq<(u64, PriceLevel)>) -> Seq<LevelView> {
    Seq::new(levels.len(), |i: int| (levels[i].0, levels[i].1@))
}

/// Prices strictly ordered best first.
pub open spec fn view_sorted(v: Seq<LevelView>, desc: bool) -> bool {
    forall|i: int, j: int| 0 <= i < j < v.len() ==> better(v[i].0, v[j].0, desc)
}

/// A well-formed side: prices strictly ordered best first, every level well-formed.
pub open spec fn side_wf(levels: Seq<(u64, PriceLevel)>, desc: bool) -> bool {
    &&& view_sorted(side_view(levels), desc)
    &&& forall|i: int| 0 <= i < levels.len() ==> (#[trigger] levels[i]).1.wf()
}

/// Number of leading levels whose price comes before `price`: where a level at
/// `price` stands or would be inserted.
pub open spec fn insert_pos(v: Seq<LevelView>, price: u64, desc: bool) -> nat
    decreases v.len(),
{
    if v.len() == 0 {
        0
    } else if better(v[0].0, price, desc) {
        1 + insert_pos(v.drop_first(), price, desc)
    } else {
        0
    }
}

/// The side after `order` joined it at its price: at the back of the level at that
/// price, or alone in a new level at its place in price order.
pub open spec fn side_add(v: Seq<LevelView>, order: Order, desc: bool) -> Seq<LevelView> {
    let k = insert_pos(v, order.price, desc) as int;
    if k < v.len() && v[k].0 == order.price {
        v.update(k, (order.price, v[k].1.push(order)))
    } else {
        v.insert(k, (order.price, seq![order]))
    }
}

/// The prices of the levels of a side, in order.
pub open spec fn level_prices(v: Seq<LevelView>) -> Seq<u64> {
    v.map_values(|l: LevelView| l.0)
}

/// What a cancel of `id` at `price` does to a side, `known` telling whether the level at
/// that price has `id` recorded: that level then loses the order with that id (the last
/// added with it); a level left empty leaves the side. The first part is the order taken
/// out, if any. A side with no level at `price` is left as it is.
pub open spec fn side_take(v: Seq<LevelView>, price: u64, id: Seq<char>, known: bool) -> (Option<Order>, Seq<
    LevelView,
>) {
    let k = first_pos(level_prices(v), price) as int;
    if k < v.len() {
        let q = v[k].1;
        let i = id_pos(q, id) as int;
        let found = known && i < q.len();
        let q2 = if found { q.remove(i) } else { q };
        (
            if found { Some(q[i]) } else { None },
            if q2.len() == 0 { v.remove(k) } else { v.update(k, (v[k].0, q2)) },
        )
    } else {
        (None, v)
    }
}

/// Whether the level at `price` of a side has `id` recorded (see `PriceLevel::indexed`).
pub open spec fn level_knows(levels: Seq<(u64, PriceLevel)>, price: u64, id: Seq<char>) -> bool {
    let k = first_pos(level_prices(side_view(levels)), price) as int;
    k < levels.len() && levels[k].1.indexed().contains(id)
}

/// Number of orders resting on a side.
pub open spec fn count_orders(v: Seq<LevelView>) -> nat
    decreases v.len(),
{
    if v.len() == 0 {
        0
    } else {
        v[0].1.len() + count_orders(v.drop_first())
    }
}

pub proof fn lemma_insert_pos(v: Seq<LevelView>, price: u64, desc: bool)
    ensures
        insert_pos(v, price, desc) <= v.len(),
        forall|j: int| 0 <= j < insert_pos(v, price, desc) ==> better(v[j].0, price, desc),
        insert_pos(v, price, desc) < v.len() ==> !better(v[insert_pos(v, price, desc) as int].0, price, desc),
    decreases v.len(),
{
    if v.len() > 0 && better(v[0].0, price, desc) {
        lemma_insert_pos(v.drop_first(), price, desc);
        assert forall|j: int| 0 <= j < insert_pos(v, price, desc) implies better(v[j].0, price, desc) by {
            if j > 0 {
                assert(v[j] == v.drop_first()[j - 1]);
            }
        }
    }
}

pub proof fn lemma_insert_pos_at(v: Seq<LevelView>, price: u64, desc: bool, i: int)
    requires
        0 <= i <= v.len(),
        forall|j: int| 0 <= j < i ==> better(v[j].0, price, desc),
        i < v.len() ==> !better(v[i].0, price, desc),
    ensures
        insert_pos(v, price, desc) == i,
    decreases v.len(),
{
    if i > 0 {
        assert(better(v[0].0, price, desc));
        assert forall|j: int| 0 <= j < i - 1 implies better(v.drop_first()[j].0, price, desc) by {
            assert(v.drop_first()[j] == v[j + 1]);
        }
        lemma_insert_pos_at(v.drop_first(), price, desc, i - 1);
    }
}

pub proof fn lemma_side_add_sorted(v: Seq<LevelView>, order: Order, desc: bool)
    requires
        view_sorted(v, desc),
    ensures
        view_sorted(side_add(v, order, desc), desc),
        side_add(v, order, desc).len() >= v.len(),
{
    lemma_insert_pos(v, order.price, desc);
    let k = insert_pos(v, order.price, desc) as int;
    let r = side_add(v, order, desc);
    if k < v.len() && v[k].0 == order.price {
        assert forall|i: int, j: int| 0 <= i < j < r.len() implies better(r[i].0, r[j].0, desc) by {
            assert(r[i].0 == v[i].0 && r[j].0 == v[j].0);
        }
    } else {
        assert forall|i: int, j: int| 0 <= i < j < r.len() implies better(r[i].0, r[j].0, desc) by {
            if j < k {
                assert(r[i] == v[i] && r[j] == v[j]);
            } else if j == k {
                assert(r[i] == v[i]);
            } else if i == k {
                assert(r[j] == v[j - 1]);
                assert(!better(v[k].0, order.price, desc));
                assert(v[k].0 != order.price);
                if j - 1 > k {
                    assert(better(v[k].0, v[j - 1].0, desc));
                }
            } else if i < k {
                assert(r[i] == v[i] && r[j] == v[j - 1]);
            } else {
                assert(r[i] == v[i - 1] && r[j] == v[j - 1]);
            }
        }
    }
}

pub proof fn lemma_side_take_sorted(v: Seq<LevelView>, price: u64, id: Seq<char>, known: bool, desc: bool)
    requires
        view_sorted(v, desc),
    ensures
        view_sorted(side_take(v, price, id, known).1, desc),
{
    let k = first_pos(level_prices(v), price) as int;
    let r = side_take(v, price, id, known).1;
    lemma_first_pos(level_prices(v), price);
    if k < v.len() {
        if r.len() < v.len() {
            assert(r =~= v.remove(k));
            assert forall|i: int, j: int| 0 <= i < j < r.len() implies better(r[i].0, r[j].0, desc) by {
                if j < k {
                    assert(r[i] == v[i] && r[j] == v[j]);
                } else if i < k {
                    assert(r[i] == v[i] && r[j] == v[j + 1]);
                } else {
                    assert(r[i] == v[i + 1] && r[j] == v[j + 1]);
                }
            }
        } else {
            assert forall|i: int, j: int| 0 <= i < j < r.len() implies better(r[i].0, r[j].0, desc) by {
                assert(r[i].0 == v[i].0 && r[j].0 == v[j].0);
            }
        }
    }
}

pub proof fn lemma_count_orders_drop(v: Seq<LevelView>, i: int)
    requires
        0 <= i <= v.len(),
    ensures
        count_orders(v.take(i)) <= count_orders(v),
    decreases v.len(),
{
    if i > 0 {
        lemma_count_orders_drop(v.drop_first(), i - 1);
        assert(v.take(i).drop_first() =~= v.drop_first().take(i - 1));
    } else {
        assert(count_orders(v.take(0)) == 0) by {
            assert(v.take(0).len() == 0);
        }
    }
}

pub proof fn lemma_count_orders_step(v: Seq<LevelView>, i: int)
    requires
        0 <= i < v.len(),
    ensures
        count_orders(v.take(i + 1)) == count_orders(v.take(i)) + v[i].1.len(),
    decreases i,
{
    if i == 0 {
        assert(v.take(1).drop_first() =~= Seq::<LevelView>::empty());
        assert(count_orders(v.take(1).drop_first()) == 0);
        assert(v.take(0).len() == 0);
    } else {
        lemma_count_orders_step(v.drop_first(), i - 1);
        assert(v.take(i + 1).drop_first() =~= v.drop_first().take(i));
        assert(v.take(i).drop_first() =~= v.drop_first().take(i - 1));
        assert(v.drop_first()[i - 1] == v[i]);
    }
}

fn comes_before(p: u64, q: u64, desc: bool) -> (r: bool)
    ensures
        r == better(p, q, desc),
{
    if desc {
        p > q
    } else {
        p < q
    }
}

fn side_add_order(levels: &mut Vec<(u64, PriceLevel)>, order: Order, desc: bool)
    requires
        side_wf(old(levels)@, desc),
        ({
            let v = side_view(old(levels)@);
            let k = insert_pos(v, order.price, desc) as int;
            k < v.len() && v[k].0 == order.price ==> volume(v[k].1) + order.remaining_quantity
                <= u64::MAX
        }),
    ensures
        side_wf(final(levels)@, desc),
        side_view(final(levels)@) == side_add(side_view(old(levels)@), order, desc),
        knows_more(old(levels)@, final(levels)@, order.price, order.id@),
{
    let ghost v = side_view(levels@);
    let price = order.price;
    let ghost oid = order.id@;
    let n = levels.len();
    let mut i: usize = 0;
    while i < n && comes_before(levels[i].0, price, desc)
        invariant
            n == levels@.len(),
            i <= n,
            levels@ == old(levels)@,
            v == side_view(levels@),
            forall|j: int| 0 <= j < i ==> better(v[j].0, price, desc),
        decreases n - i,
    {
        i = i + 1;
    }
    proof {
        lemma_insert_pos_at(v, price, desc, i as int);
        lemma_side_add_sorted(v, order, desc);
    }
    if i < n && levels[i].0 == price {
        let ghost old_level = levels@[i as int].1;
        levels[i].1.add_order(order);
        proof {
            assert(side_view(levels@) =~= side_add(v, order, desc));
        }
    } else {
        let mut level = PriceLevel::new();
        proof {
            lemma_volume_push(Seq::<Order>::empty(), order);
            assert(volume(Seq::<Order>::empty()) == 0);
        }
        level.add_order(order);
        levels.insert(i, (price, level));
        proof {
            assert(side_view(levels@) =~= side_add(v, order, desc));
        }
    }
    proof {
        let ii = i as int;
        assert(levels@[ii].0 == price);
        assert(levels@[ii].1.indexed().contains(oid));
        assert forall|p: u64, id: Seq<char>|
            #![trigger level_knows(levels@, p, id)]
            level_knows(levels@, p, id) == (level_knows(old(levels)@, p, id) || (p == price && id == oid)) by {
            lemma_level_knows(levels@, desc, p, id);
            lemma_level_knows(old(levels)@, desc, p, id);
            let grew = levels@.len() > old(levels)@.len();
            if level_knows(levels@, p, id) {
                let j = choose|j: int|
                    0 <= j < levels@.len() && #[trigger] levels@[j].0 == p && levels@[j].1.indexed().contains(id);
                if j == ii {
                    if !(p == price && id == oid) && !grew {
                        assert(old(levels)@[ii].0 == p);
                        assert(old(levels)@[ii].1.indexed().contains(id));
                    }
                } else if j < ii || !grew {
                    assert(levels@[j] == old(levels)@[j]);
                    assert(old(levels)@[j].0 == p);
                } else {
                    assert(levels@[j] == old(levels)@[j - 1]);
                    assert(old(levels)@[j - 1].0 == p);
                }
            }
            if level_knows(old(levels)@, p, id) {
                let j = choose|j: int|
                    0 <= j < old(levels)@.len() && #[trigger] old(levels)@[j].0 == p && old(levels)@[j].1.indexed().contains(id);
                if j < ii || (!grew && j != ii) {
                    assert(levels@[j] == old(levels)@[j]);
                    assert(levels@[j].0 == p);
                } else if !grew {
                    assert(levels@[ii].0 == p);
                } else {
                    assert(levels@[j + 1] == old(levels)@[j]);
                    assert(levels@[j + 1].0 == p);
                }
            }
            if p == price && id == oid {
                assert(levels@[ii].0 == p);
            }
        }
    }
    proof {
        assert forall|j: int| 0 <= j < levels@.len() implies (#[trigger] levels@[j]).1.wf() by {
            if j < i {
                assert(levels@[j] == old(levels)@[j]);
            } else if j > i {
                if levels@.len() > old(levels)@.len() {
                    assert(levels@[j] == old(levels)@[j - 1]);
                } else {
                    assert(levels@[j] == old(levels)@[j]);
                }
            }
        }
    }
}


/// On a side sorted by price, a level at `p` records `id` exactly when some level at
/// price `p` does.
pub proof fn lemma_level_knows(levels: Seq<(u64, PriceLevel)>, desc: bool, p: u64, id: Seq<char>)
    requires
        view_sorted(side_view(levels), desc),
    ensures
        level_knows(levels, p, id) <==> exists|j: int|
            0 <= j < levels.len() && #[trigger] levels[j].0 == p && levels[j].1.indexed().contains(id),
{
    let v = side_view(levels);
    let ps = level_prices(v);
    lemma_first_pos(ps, p);
    let k = first_pos(ps, p) as int;
    if k < levels.len() {
        assert(ps[k] == levels[k].0);
    }
    if exists|j: int| 0 <= j < levels.len() && #[trigger] levels[j].0 == p && levels[j].1.indexed().contains(id) {
        let j = choose|j: int| 0 <= j < levels.len() && #[trigger] levels[j].0 == p && levels[j].1.indexed().contains(id);
        assert(ps[j] == levels[j].0);
        assert(k <= j);
        if k < j {
            assert(better(v[k].0, v[j].0, desc));
            assert(v[k].0 == levels[k].0 && v[j].0 == levels[j].0);
        }
    }
}

fn price_index(levels: &Vec<(u64, PriceLevel)>, price: u64) -> (r: usize)
    ensures
        r == first_pos(level_prices(side_view(levels@)), price),
{
    let ghost ps = level_prices(side_view(levels@));
    let n = levels.len();
    let mut i: usize = 0;
    while i < n
        invariant
            n == levels@.len(),
            ps == level_prices(side_view(levels@)),
            ps.len() == n,
            i <= n,
            forall|j: int| 0 <= j < i ==> ps[j] != price,
        decreases n - i,
    {
        if levels[i].0 == price {
            proof {
                assert(ps[i as int] == price);
                lemma_first_pos_at(ps, price, i as int);
            }
            return i;
        }
        proof {
            assert(ps[i as int] == levels@[i as int].0);
        }
        i = i + 1;
    }
    proof {
        lemma_first_pos_at(ps, price, n as int);
    }
    n
}

/// Takes the order `order_id` out of the level at `price` of a side (see `side_take`).
fn side_take_levels(levels: &mut Vec<(u64, PriceLevel)>, price: u64, order_id: &str, desc: bool) -> (r:
    Option<Order>)
    requires
        side_wf(old(levels)@, desc),
    ensures
        side_wf(final(levels)@, desc),
        (r, side_view(final(levels)@)) == side_take(side_view(old(levels)@), price, order_id@, level_knows(
            old(levels)@,
            price,
            order_id@,
        )),
        knows_less(old(levels)@, final(levels)@, price, order_id@),
{
    let ghost v = side_view(levels@);
    let k = price_index(levels, price);
    proof {
        lemma_first_pos(level_prices(v), price);
        lemma_side_take_sorted(v, price, order_id@, level_knows(levels@, price, order_id@), desc);
    }
    if k == levels.len() {
        proof {
            assert forall|p: u64, id: Seq<char>|
                #![trigger level_knows(levels@, p, id)]
                level_knows(levels@, p, id) == (level_knows(old(levels)@, p, id) && !(p == price && id == order_id@)) by {
                lemma_level_knows(levels@, desc, p, id);
                if p == price && level_knows(levels@, p, id) {
                    let j = choose|j: int|
                        0 <= j < levels@.len() && #[trigger] levels@[j].0 == p && levels@[j].1.indexed().contains(id);
                    assert(level_prices(v)[j] == levels@[j].0);
                }
            }
        }
        return None;
    }
    let ghost kk = k as int;
    let ghost lvl0 = levels@[kk].1;
    proof {
        assert(levels@[k as int].1.wf());
        assert(v[k as int].1 == levels@[k as int].1@);
        assert(level_prices(v)[k as int] == v[k as int].0);
    }
    let removed = levels[k].1.remove_order(order_id);
    let ghost lvl1 = levels@[kk].1;
    if levels[k].1.is_empty() {
        levels.remove(k);
        proof {
            assert(side_view(levels@) =~= side_take(v, price, order_id@, level_knows(old(levels)@, price, order_id@)).1);
            assert forall|j: int| 0 <= j < levels@.len() implies (#[trigger] levels@[j]).1.wf() by {
                if j < k {
                    assert(levels@[j] == old(levels)@[j]);
                } else {
                    assert(levels@[j] == old(levels)@[j + 1]);
                }
            }
        }
    } else {
        proof {
            assert(side_view(levels@) =~= side_take(v, price, order_id@, level_knows(old(levels)@, price, order_id@)).1);
            assert forall|j: int| 0 <= j < levels@.len() implies (#[trigger] levels@[j]).1.wf() by {
                if j != k {
                    assert(levels@[j] == old(levels)@[j]);
                }
            }
        }
    }
    proof {
        lemma_side_take_sorted(v, price, order_id@, level_knows(old(levels)@, price, order_id@), desc);
        let shrunk = levels@.len() < old(levels)@.len();
        assert(level_prices(v)[kk] == old(levels)@[kk].0);
        assert(old(levels)@[kk].1 == lvl0);
        assert(level_knows(old(levels)@, price, order_id@) == lvl0.indexed().contains(order_id@));
        assert(shrunk == (lvl1@.len() == 0));
        assert(lvl1.indexed() == if lvl0.indexed().contains(order_id@) {
            lvl0.indexed().remove(order_id@)
        } else {
            lvl0.indexed()
        });
        if !shrunk {
            assert(levels@[kk].1 == lvl1);
        }
        assert forall|p: u64, id: Seq<char>|
            #![trigger level_knows(levels@, p, id)]
            level_knows(levels@, p, id) == (level_knows(old(levels)@, p, id) && !(p == price && id == order_id@)) by {
            lemma_level_knows(levels@, desc, p, id);
            lemma_level_knows(old(levels)@, desc, p, id);
            if level_knows(levels@, p, id) {
                let j = choose|j: int|
                    0 <= j < levels@.len() && #[trigger] levels@[j].0 == p && levels@[j].1.indexed().contains(id);
                if j < kk || (!shrunk && j != kk) {
                    assert(levels@[j] == old(levels)@[j]);
                    assert(old(levels)@[j].0 == p);
                    if p == price {
                        if j < kk {
                            assert(better(v[j].0, v[kk].0, desc));
                        } else {
                            assert(better(v[kk].0, v[j].0, desc));
                        }
                    }
                } else if !shrunk {
                    assert(old(levels)@[kk].0 == p);
                    assert(old(levels)@[kk].1.indexed().contains(id));
                } else {
                    assert(levels@[j] == old(levels)@[j + 1]);
                    assert(old(levels)@[j + 1].0 == p);
                    if p == price {
                        assert(better(v[kk].0, v[j + 1].0, desc));
                    }
                }
            }
            if level_knows(old(levels)@, p, id) && !(p == price && id == order_id@) {
                let j = choose|j: int|
                    0 <= j < old(levels)@.len() && #[trigger] old(levels)@[j].0 == p && old(levels)@[j].1.indexed().contains(id);
                if j < kk || (!shrunk && j != kk) {
                    assert(levels@[j] == old(levels)@[j]);
                    assert(levels@[j].0 == p);
                } else if j == kk {
                    if shrunk {
                        assert(lvl0.indexed().contains(id));
                        assert(id_pos(lvl0@, id) < lvl0@.len());
                        lemma_id_pos(lvl0@, id);
                        lemma_id_pos(lvl0@, order_id@);
                        if lvl0.indexed().contains(order_id@) {
                            assert(lvl0@.len() == 1);
                            assert(lvl0@[0].id@ == id);
                        }
                        assert(false);
                    } else {
                        assert(levels@[kk].0 == p);
                    }
                } else {
                    assert(levels@[j - 1] == old(levels)@[j]);
                    assert(levels@[j - 1].0 == p);
                }
            }
        }
    }
    removed
}

/// The order that a cancel of `t` takes out of book `b` (see `OrderBook::cancel_order`).
pub open spec fn cancel_found(b: OrderBook, t: Seq<char>) -> Option<Order> {
    if b.orders@.contains_key(t) {
        let (side, price) = b.orders@[t];
        if side == Side::Buy {
            side_take(b.bids_view(), price, t, level_knows(b.bids@, price, t)).0
        } else {
            side_take(b.asks_view(), price, t, level_knows(b.asks@, price, t)).0
        }
    } else {
        None
    }
}

/// `nb` is book `b` after a cancel of `t`: when the index knows `t`, its entry goes and
/// the side it records loses the order at the recorded price (see `side_take`);
/// otherwise nothing changes.
pub open spec fn cancelled_book(b: OrderBook, t: Seq<char>, nb: OrderBook) -> bool {
    if b.orders@.contains_key(t) {
        let (side, price) = b.orders@[t];
        &&& nb.symbol == b.symbol
        &&& nb.orders@ == b.orders@.remove(t)
        &&& side == Side::Buy ==> nb.bids_view() == side_take(b.bids_view(), price, t, level_knows(b.bids@, price, t)).1
            && nb.asks@ == b.asks@ && knows_less(b.bids@, nb.bids@, price, t)
        &&& side == Side::Sell ==> nb.asks_view() == side_take(b.asks_view(), price, t, level_knows(b.asks@, price, t)).1
            && nb.bids@ == b.bids@ && knows_less(b.asks@, nb.asks@, price, t)
    } else {
        nb == b
    }
}

/// The levels `l1` record what the levels `l0` record, and also `id` at `price`.
pub open spec fn knows_more(l0: Seq<(u64, PriceLevel)>, l1: Seq<(u64, PriceLevel)>, price: u64, id: Seq<char>) -> bool {
    forall|p: u64, i: Seq<char>|
        #![trigger level_knows(l1, p, i)]
        level_knows(l1, p, i) == (level_knows(l0, p, i) || (p == price && i == id))
}

/// The levels `l1` record what the levels `l0` record, except `id` at `price`.
pub open spec fn knows_less(l0: Seq<(u64, PriceLevel)>, l1: Seq<(u64, PriceLevel)>, price: u64, id: Seq<char>) -> bool {
    forall|p: u64, i: Seq<char>|
        #![trigger level_knows(l1, p, i)]
        level_knows(l1, p, i) == (level_knows(l0, p, i) && !(p == price && i == id))
}

/// `nb` is book `b` after `o` was added (see `OrderBook::add_order`): `o` joins its side
/// at its price, the level there records its id, and the index records its side and
/// price.
pub open spec fn book_added(b: OrderBook, o: Order, nb: OrderBook) -> bool {
    &&& nb.symbol == b.symbol
    &&& nb.orders@ == b.orders@.insert(o.id@, (o.side, o.price))
    &&& o.side == Side::Buy ==> nb.bids_view() == side_add(b.bids_view(), o, true) && nb.asks@ == b.asks@
        && knows_more(b.bids@, nb.bids@, o.price, o.id@)
    &&& o.side == Side::Sell ==> nb.asks_view() == side_add(b.asks_view(), o, false) && nb.bids@ == b.bids@
        && knows_more(b.asks@, nb.asks@, o.price, o.id@)
}

/// The bid and ask levels of one symbol, with an index from order id to side and
/// price.
pub struct OrderBook {
    /// Symbol.
    pub symbol: String,
    /// Bid levels, highest price first.
    pub bids: Vec<(u64, PriceLevel)>,
    /// Ask levels, lowest price first.
    pub asks: Vec<(u64, PriceLevel)>,
    /// Side and price of each order added, by id (the last added with an id wins).
    pub orders: StringHashMap<(Side, u64)>,
}

impl OrderBook {
    /// Bids strictly descending and asks strictly ascending in price, every level
    /// well-formed.
    pub open spec fn wf(&self) -> bool {
        side_wf(self.bids@, true) && side_wf(self.asks@, false)
    }

    /// The bid levels as (price, queue).
    pub open spec fn bids_view(&self) -> Seq<LevelView> {
        side_view(self.bids@)
    }

    /// The ask levels as (price, queue).
    pub open spec fn asks_view(&self) -> Seq<LevelView> {
        side_view(self.asks@)
    }

    /// An empty book for `symbol`.
    pub fn new(symbol: String) -> (r: Self)
        ensures
            r.symbol == symbol,
            r.bids@.len() == 0,
            r.asks@.len() == 0,
            r.orders@ == Map::<Seq<char>, (Side, u64)>::empty(),
            r.wf(),
    {
        OrderBook { symbol, bids: Vec::new(), asks: Vec::new(), orders: StringHashMap::new() }
    }

    /// Puts `order` in the book: a buy joins the bids, a sell the asks, at the back of
    /// the level at its price (a new level if there is none), and the index records its
    /// side and price under its id. Always returns true.
    pub fn add_order(&mut self, order: Order) -> (r: bool)
        requires
            old(self).wf(),
            ({
                let v = if order.side == Side::Buy { old(self).bids_view() } else { old(self).asks_view() };
                let desc = order.side == Side::Buy;
                let k = insert_pos(v, order.price, desc) as int;
                k < v.len() && v[k].0 == order.price ==> volume(v[k].1) + order.remaining_quantity
                    <= u64::MAX
            }),
        ensures
            r,
            final(self).wf(),
            book_added(*old(self), order, *final(self)),
    {
        self.orders.insert(order.id.clone(), (order.side, order.price));
        match order.side {
            Side::Buy => side_add_order(&mut self.bids, order, true),
            Side::Sell => side_add_order(&mut self.asks, order, false),
        }
        true
    }

    /// Cancels the order `order_id` through the index: when the index knows the id, its
    /// entry goes, and the order with that id (the last added with it) leaves the level
    /// at the recorded side and price; a level left empty leaves the book. Returns the
    /// order taken out, `None` when the index does not know the id or that level holds
    /// no such order.
    pub fn cancel_order(&mut self, order_id: &str) -> (r: Option<Order>)
        requires
            old(self).wf(),
        ensures
            final(self).wf(),
            r == cancel_found(*old(self), order_id@),
            cancelled_book(*old(self), order_id@, *final(self)),
    {
        let entry: (Side, u64) = match self.orders.get(order_id) {
            Some(e) => *e,
            None => {
                return None;
            },
        };
        self.orders.remove(order_id);
        match entry.0 {
            Side::Buy => side_take_levels(&mut self.bids, entry.1, order_id, true),
            Side::Sell => side_take_levels(&mut self.asks, entry.1, order_id, false),
        }
    }

    /// The best (highest) bid level with its price.
    pub fn get_best_bid(&self) -> (r: Option<(u64, &PriceLevel)>)
        ensures
            self.bids@.len() == 0 ==> r is None,
            self.bids@.len() > 0 ==> (r matches Some((p, l)) && p == self.bids@[0].0 && *l == self.bids@[0].1),
    {
        if self.bids.len() == 0 {
            None
        } else {
            Some((self.bids[0].0, &self.bids[0].1))
        }
    }

    /// The best (lowest) ask level with its price.
    pub fn get_best_ask(&self) -> (r: Option<(u64, &PriceLevel)>)
        ensures
            self.asks@.len() == 0 ==> r is None,
            self.asks@.len() > 0 ==> (r matches Some((p, l)) && p == self.asks@[0].0 && *l == self.asks@[0].1),
    {
        if self.asks.len() == 0 {
            None
        } else {
            Some((self.asks[0].0, &self.asks[0].1))
        }
    }

    /// The symbol of the book.
    pub fn symbol(&self) -> (r: &str)
        ensures
            r@ == self.symbol@,
    {
        self.symbol.as_str()
    }

    /// The ask level at `price`, for changes in place.
    pub fn get_ask_price_level(&mut self, price: u64) -> (r: Option<&mut PriceLevel>)
        ensures
            match r {
                Some(l) => exists|i: int|
                    0 <= i < old(self).asks@.len() && old(self).asks@[i].0 == price
                        && *l == old(self).asks@[i].1
                        && final(self).asks@ == old(self).asks@.update(i, (price, *final(l)))
                        && final(self).bids@ == old(self).bids@
                        && final(self).symbol == old(self).symbol,
                None => (forall|i: int| 0 <= i < old(self).asks@.len() ==> old(self).asks@[i].0 != price)
                    && *final(self) == *old(self),
            },
    {
        let n = self.asks.len();
        let mut i: usize = 0;
        while i < n
            invariant
                n == self.asks@.len(),
                i <= n,
                *self == *old(self),
                forall|j: int| 0 <= j < i ==> self.asks@[j].0 != price,
            decreases n - i,
        {
            if self.asks[i].0 == price {
                return Some(&mut self.asks[i].1);
            }
            i = i + 1;
        }
        None
    }

    /// The bid level at `price`, for changes in place.
    pub fn get_bid_price_level(&mut self, price: u64) -> (r: Option<&mut PriceLevel>)
        ensures
            match r {
                Some(l) => exists|i: int|
                    0 <= i < old(self).bids@.len() && old(self).bids@[i].0 == price
                        && *l == old(self).bids@[i].1
                        && final(self).bids@ == old(self).bids@.update(i, (price, *final(l)))
                        && final(self).asks@ == old(self).asks@
                        && final(self).symbol == old(self).symbol,
                None => (forall|i: int| 0 <= i < old(self).bids@.len() ==> old(self).bids@[i].0 != price)
                    && *final(self) == *old(self),
            },
    {
        let n = self.bids.len();
        let mut i: usize = 0;
        while i < n
            invariant
                n == self.bids@.len(),
                i <= n,
                *self == *old(self),
                forall|j: int| 0 <= j < i ==> self.bids@[j].0 != price,
            decreases n - i,
        {
            if self.bids[i].0 == price {
                return Some(&mut self.bids[i].1);
            }
            i = i + 1;
        }
        None
    }

    /// Up to `depth` levels of each side as (price, total volume), best first.
    pub fn get_order_book_snapshot(&self, depth: usize) -> (r: OrderBookSnapshot)
        ensures
            r.symbol == self.symbol,
            r.bids@ == depth_levels(self.bids@, depth),
            r.asks@ == depth_levels(self.asks@, depth),
    {
        OrderBookSnapshot {
            symbol: self.symbol.clone(),
            bids: side_depth(&self.bids, depth),
            asks: side_depth(&self.asks, depth),
        }
    }

    /// Number of resting buy orders.
    pub fn bid_count(&self) -> (r: usize)
        requires
            count_orders(self.bids_view()) <= usize::MAX,
        ensures
            r == count_orders(self.bids_view()),
    {
        side_count(&self.bids)
    }

    /// Number of resting sell orders.
    pub fn ask_count(&self) -> (r: usize)
        requires
            count_orders(self.asks_view()) <= usize::MAX,
        ensures
            r == count_orders(self.asks_view()),
    {
        side_count(&self.asks)
    }

    /// Number of resting orders.
    pub fn order_count(&self) -> (r: usize)
        requires
            count_orders(self.bids_view()) + count_orders(self.asks_view()) <= usize::MAX,
        ensures
            r == count_orders(self.bids_view()) + count_orders(self.asks_view()),
    {
        self.bid_count() + self.ask_count()
    }
}

/// The first `depth` levels of a side as (price, volume field).
pub open spec fn depth_levels(levels: Seq<(u64, PriceLevel)>, depth: usize) -> Seq<(u64, u64)> {
    let n = if depth < levels.len() { depth as int } else { levels.len() as int };
    Seq::new(n as nat, |i: int| (levels[i].0, levels[i].1.total()))
}

fn side_depth(levels: &Vec<(u64, PriceLevel)>, depth: usize) -> (r: Vec<(u64, u64)>)
    ensures
        r@ == depth_levels(levels@, depth),
{
    let n = if depth < levels.len() { depth } else { levels.len() };
    let mut out: Vec<(u64, u64)> = Vec::new();
    let mut i: usize = 0;
    while i < n
        invariant
            n <= levels@.len(),
            n == (if depth < levels@.len() { depth as int } else { levels@.len() as int }),
            i <= n,
            out@.len() == i,
            forall|j: int| 0 <= j < i ==> out@[j] == (levels@[j].0, levels@[j].1.total()),
        decreases n - i,
    {
        out.push((levels[i].0, levels[i].1.total_volume));
        i = i + 1;
    }
    proof {
        assert(out@ =~= depth_levels(levels@, depth));
    }
    out
}

fn side_count(levels: &Vec<(u64, PriceLevel)>) -> (r: usize)
    requires
        count_orders(side_view(levels@)) <= usize::MAX,
    ensures
        r == count_orders(side_view(levels@)),
{
    let ghost v = side_view(levels@);
    let n = levels.len();
    let mut total: usize = 0;
    let mut i: usize = 0;
    while i < n
        invariant
            n == levels@.len(),
            v == side_view(levels@),
            count_orders(v) <= usize::MAX,
            i <= n,
            total == count_orders(v.take(i as int)),
        decreases n - i,
    {
        proof {
            lemma_count_orders_step(v, i as int);
            lemma_count_orders_drop(v, i + 1);
        }
        total = total + levels[i].1.len();
        i = i + 1;
    }
    proof {
        assert(v.take(n as int) =~= v);
    }
    total
}


pub proof fn lemma_id_pos_push(s: Seq<Order>, o: Order, id: Seq<char>)
    ensures
        id_pos(s.push(o), id) == if o.id@ == id {
            s.len() as nat
        } else if id_pos(s, id) < s.len() {
            id_pos(s, id)
        } else {
            s.len() + 1
        },
{
    assert(s.push(o).drop_last() =~= s);
    assert(s.push(o).last() == o);
}

/// Adding an order to a price level and then removing it by its id gives the level
/// back, and the order removed is the one added, whatever orders of the level
/// already had that id.
pub proof fn law_level_remove_undoes_add(s: Seq<Order>, o: Order)
    ensures
        id_pos(s.push(o), o.id@) == s.len(),
        s.push(o)[s.len() as int] == o,
        s.push(o).remove(s.len() as int) == s,
{
    lemma_id_pos_push(s, o, o.id@);
    assert(s.push(o).remove(s.len() as int) =~= s);
}

/// Cancelling an order at its price right after it joined a side gives the side back
/// and returns that order, whatever other orders of the side share its id, when no
/// level was empty.
pub proof fn law_cancel_undoes_add(v: Seq<LevelView>, o: Order, desc: bool)
    requires
        view_sorted(v, desc),
        forall|i: int| 0 <= i < v.len() ==> (#[trigger] v[i]).1.len() > 0,
    ensures
        side_take(side_add(v, o, desc), o.price, o.id@, true) == (Some(o), v),
{
    let id = o.id@;
    lemma_insert_pos(v, o.price, desc);
    let k = insert_pos(v, o.price, desc) as int;
    let r = side_add(v, o, desc);
    let ps = level_prices(r);
    assert forall|j: int| 0 <= j < k implies ps[j] != o.price by {
        assert(ps[j] == r[j].0);
        assert(r[j] == v[j]);
    }
    assert(ps[k] == r[k].0);
    lemma_first_pos_at(ps, o.price, k);
    if k < v.len() && v[k].0 == o.price {
        let q = v[k].1;
        law_level_remove_undoes_add(q, o);
        assert(r[k].1 == q.push(o));
        assert(side_take(r, o.price, id, true).1 =~= v);
    } else {
        assert(r[k].1 == seq![o]);
        lemma_id_pos_push(Seq::<Order>::empty(), o, id);
        assert(Seq::<Order>::empty().push(o) =~= seq![o]);
        assert(seq![o].remove(0).len() == 0);
        assert(side_take(r, o.price, id, true).1 =~= v);
    }
}

proof fn lemma_count_update(v: Seq<LevelView>, k: int, l: LevelView)
    requires
        0 <= k < v.len(),
    ensures
        count_orders(v.update(k, l)) + v[k].1.len() == count_orders(v) + l.1.len(),
    decreases v.len(),
{
    if k == 0 {
        assert(v.update(0, l).drop_first() =~= v.drop_first());
    } else {
        lemma_count_update(v.drop_first(), k - 1, l);
        assert(v.update(k, l).drop_first() =~= v.drop_first().update(k - 1, l));
    }
}

proof fn lemma_count_insert(v: Seq<LevelView>, k: int, l: LevelView)
    requires
        0 <= k <= v.len(),
    ensures
        count_orders(v.insert(k, l)) == count_orders(v) + l.1.len(),
    decreases v.len(),
{
    if k == 0 {
        assert(v.insert(0, l).drop_first() =~= v);
    } else {
        lemma_count_insert(v.drop_first(), k - 1, l);
        assert(v.insert(k, l).drop_first() =~= v.drop_first().insert(k - 1, l));
    }
}

proof fn lemma_count_remove(v: Seq<LevelView>, k: int)
    requires
        0 <= k < v.len(),
    ensures
        count_orders(v.remove(k)) + v[k].1.len() == count_orders(v),
    decreases v.len(),
{
    if k == 0 {
        assert(v.remove(0) =~= v.drop_first());
    } else {
        lemma_count_remove(v.drop_first(), k - 1);
        assert(v.remove(k).drop_first() =~= v.drop_first().remove(k - 1));
    }
}

/// Adding an order to a side adds one to the number of orders resting on it.
pub proof fn law_add_counts_one(v: Seq<LevelView>, o: Order, desc: bool)
    ensures
        count_orders(side_add(v, o, desc)) == count_orders(v) + 1,
{
    let k = insert_pos(v, o.price, desc) as int;
    lemma_insert_pos(v, o.price, desc);
    if k < v.len() && v[k].0 == o.price {
        lemma_count_update(v, k, (o.price, v[k].1.push(o)));
    } else {
        lemma_count_insert(v, k, (o.price, seq![o]));
    }
}

/// A cancel at a price takes one order off the side when it gives an order back, and
/// leaves the number of resting orders as it was otherwise.
pub proof fn law_take_counts_one(v: Seq<LevelView>, price: u64, id: Seq<char>, known: bool)
    ensures
        count_orders(side_take(v, price, id, known).1) + (if side_take(v, price, id, known).0 is Some {
            1int
        } else {
            0int
        }) == count_orders(v),
{
    let k = first_pos(level_prices(v), price) as int;
    lemma_first_pos(level_prices(v), price);
    if k < v.len() {
        let q = v[k].1;
        let i = id_pos(q, id) as int;
        lemma_id_pos(q, id);
        let q2 = if known && i < q.len() { q.remove(i) } else { q };
        if q2.len() == 0 {
            lemma_count_remove(v, k);
        } else {
            lemma_count_update(v, k, (v[k].0, q2));
        }
    }
}

/// Cancelling an order right after it was added to a book takes that very order out and
/// gives back the book's levels as they were, with its id no longer indexed, in a
/// well-formed book with no empty level.
pub proof fn law_book_cancel_undoes_add(b: OrderBook, o: Order, b1: OrderBook, b2: OrderBook)
    requires
        b.wf(),
        forall|i: int| 0 <= i < b.bids_view().len() ==> (#[trigger] b.bids_view()[i]).1.len() > 0,
        forall|i: int| 0 <= i < b.asks_view().len() ==> (#[trigger] b.asks_view()[i]).1.len() > 0,
        book_added(b, o, b1),
        cancelled_book(b1, o.id@, b2),
    ensures
        cancel_found(b1, o.id@) == Some(o),
        b2.bids_view() == b.bids_view(),
        b2.asks_view() == b.asks_view(),
        b2.orders@ == b.orders@.remove(o.id@),
        b2.symbol == b.symbol,
{
    assert(b1.orders@.contains_key(o.id@));
    assert(b1.orders@[o.id@] == (o.side, o.price));
    assert(b1.orders@.remove(o.id@) =~= b.orders@.remove(o.id@));
    if o.side == Side::Buy {
        assert(level_knows(b1.bids@, o.price, o.id@));
        law_cancel_undoes_add(b.bids_view(), o, true);
    } else {
        assert(level_knows(b1.asks@, o.price, o.id@));
        law_cancel_undoes_add(b.asks_view(), o, false);
    }
}

/// A depth snapshot of a well-formed side holds the best `depth` levels (all of them
/// when there are fewer), best first: never more than `depth` entries, each the price
/// of the level at its place with the sum of that level's remaining quantities, the
/// prices in the side's order.
pub proof fn law_depth_snapshot(levels: Seq<(u64, PriceLevel)>, depth: usize, desc: bool)
    requires
        side_wf(levels, desc),
    ensures
        ({
            let r = depth_levels(levels, depth);
            &&& r.len() <= depth
            &&& r.len() <= levels.len()
            &&& (r.len() == depth || r.len() == levels.len())
            &&& forall|i: int| 0 <= i < r.len() ==> (#[trigger] r[i]).0 == levels[i].0 && r[i].1 == volume(levels[i].1@)
            &&& forall|i: int, j: int| 0 <= i < j < r.len() ==> better(#[trigger] r[i].0, #[trigger] r[j].0, desc)
        }),
{
    let r = depth_levels(levels, depth);
    assert forall|i: int| 0 <= i < r.len() implies (#[trigger] r[i]).0 == levels[i].0 && r[i].1 == volume(levels[i].1@) by {
        assert(levels[i].1.wf());
    }
    assert forall|i: int, j: int| 0 <= i < j < r.len() implies better(#[trigger] r[i].0, #[trigger] r[j].0, desc) by {
        assert(side_view(levels)[i].0 == levels[i].0);
        assert(side_view(levels)[j].0 == levels[j].0);
    }
}

} // verus!



