//! Loading the made-up data: the default users, the choice between users read from a
//! file and the defaults, and the orders that fill the initial order books.

use vstd::prelude::*;
use crate::model::{Order, OrderType, Side};
use crate::text::{decimal_of, with_number};

verus! {

/// The loader of the made-up data.
pub struct DataLoader;

/// A made-up user.
#[derive(Debug)]
pub struct FakeUser {
    pub id: String,
    pub name: String,
    /// "retail" or "institutional".
    pub user_type: String,
    /// "scalping", "swing", "day_trading", ...
    pub trading_style: String,
    pub balance: u64,
}

impl Clone for FakeUser {
    fn clone(&self) -> (r: Self)
        ensures
            r == *self,
    {
        FakeUser {
            id: self.id.clone(),
            name: self.name.clone(),
            user_type: self.user_type.clone(),
            trading_style: self.trading_style.clone(),
            balance: self.balance,
        }
    }
}

/// The plain values of a user.
pub open spec fn user_view(u: FakeUser) -> (Seq<char>, Seq<char>, Seq<char>, Seq<char>, u64) {
    (u.id@, u.name@, u.user_type@, u.trading_style@, u.balance)
}

/// The three default users, retail traders with large test balances.
pub open spec fn default_users() -> Seq<(Seq<char>, Seq<char>, Seq<char>, Seq<char>, u64)> {
    seq![
        ("user_001"@, "김투자"@, "retail"@, "scalping"@, 10_000_000_000u64),
        ("user_002"@, "박트레이더"@, "retail"@, "swing"@, 20_000_000_000u64),
        ("test_user_001"@, "테스트사용자"@, "retail"@, "day_trading"@, 50_000_000_000u64),
    ]
}

fn user(id: &str, name: &str, user_type: &str, trading_style: &str, balance: u64) -> (r: FakeUser)
    ensures
        user_view(r) == (id@, name@, user_type@, trading_style@, balance),
{
    FakeUser {
        id: String::from_str(id),
        name: String::from_str(name),
        user_type: String::from_str(user_type),
        trading_style: String::from_str(trading_style),
        balance,
    }
}

/// The price levels an initial order book starts with.
#[derive(Debug)]
pub struct InitialBook {
    pub symbol: String,
    /// (price, quantity) of each bid level.
    pub bids: Vec<(u64, u64)>,
    /// (price, quantity) of each ask level.
    pub asks: Vec<(u64, u64)>,
}

/// What an order is, but for the time it was made: id, symbol, side, type, price,
/// quantity, remaining quantity, client, whether it cancels.
pub open spec fn order_plan(o: Order) -> (Seq<char>, Seq<char>, Side, OrderType, u64, u64, u64, Seq<char>, bool) {
    (o.id@, o.symbol@, o.side, o.order_type, o.price, o.quantity, o.remaining_quantity, o.client_id@, o.is_cancel)
}

/// A fresh limit order of the market maker.
pub open spec fn maker_order(id: Seq<char>, symbol: Seq<char>, side: Side, level: (u64, u64))
    -> (Seq<char>, Seq<char>, Side, OrderType, u64, u64, u64, Seq<char>, bool) {
    (id, symbol, side, OrderType::Limit, level.0, level.1, level.1, "market_maker"@, false)
}

/// The orders of one side of a book, numbered from `first_id`: "<prefix><number>".
pub open spec fn side_orders(prefix: Seq<char>, first_id: nat, symbol: Seq<char>, side: Side, levels: Seq<(u64, u64)>)
    -> Seq<(Seq<char>, Seq<char>, Side, OrderType, u64, u64, u64, Seq<char>, bool)> {
    Seq::new(levels.len(), |i: int| maker_order(prefix + decimal_of((first_id + i) as nat), symbol, side, levels[i]))
}

/// The orders of one book, numbered from `first_id`: a buy "init_bid_<n>" per bid level,
/// then a sell "init_ask_<n>" per ask level.
pub open spec fn book_orders(b: InitialBook, first_id: nat)
    -> Seq<(Seq<char>, Seq<char>, Side, OrderType, u64, u64, u64, Seq<char>, bool)> {
    side_orders("init_bid_"@, first_id, b.symbol@, Side::Buy, b.bids@)
        + side_orders("init_ask_"@, first_id + b.bids@.len(), b.symbol@, Side::Sell, b.asks@)
}

/// The number of price levels of the books.
pub open spec fn total_levels(books: Seq<InitialBook>) -> nat
    decreases books.len(),
{
    if books.len() == 0 { 0 } else { total_levels(books.drop_last()) + books.last().bids@.len() + books.last().asks@.len() }
}

/// The initial orders of the books, in order, numbered from 1 across all books.
pub open spec fn initial_orders(books: Seq<InitialBook>)
    -> Seq<(Seq<char>, Seq<char>, Side, OrderType, u64, u64, u64, Seq<char>, bool)>
    decreases books.len(),
{
    if books.len() == 0 {
        Seq::empty()
    } else {
        initial_orders(books.drop_last()) + book_orders(books.last(), 1 + total_levels(books.drop_last()))
    }
}

/// Appends the orders of one side: `prefix` and a number from `next` for each level.
fn push_side(out: &mut Vec<Order>, prefix: &str, next: u64, symbol: &String, side: Side, levels: &Vec<(u64, u64)>)
    -> (r: u64)
    requires
        next + levels.len() <= u64::MAX,
    ensures
        r == next + levels.len(),
        final(out)@.map_values(|o: Order| order_plan(o)) == old(out)@.map_values(|o: Order| order_plan(o))
            + side_orders(prefix@, next as nat, symbol@, side, levels@),
{
    let ghost before = out@.map_values(|o: Order| order_plan(o));
    let mut id = next;
    let mut i: usize = 0;
    while i < levels.len()
        invariant
            id == next + i,
            i <= levels.len(),
            next + levels.len() <= u64::MAX,
            out@.map_values(|o: Order| order_plan(o)) == before + side_orders(prefix@, next as nat, symbol@, side, levels@).take(i as int),
        decreases levels.len() - i,
    {
        let (price, quantity) = levels[i];
        let o = Order::new(with_number(prefix, id), symbol.clone(), side, OrderType::Limit, price, quantity,
            String::from_str("market_maker"));
        let ghost prev = out@;
        out.push(o);
        proof {
            let s = side_orders(prefix@, next as nat, symbol@, side, levels@);
            assert(order_plan(o) == s[i as int]);
            assert(s.take(i + 1) =~= s.take(i as int).push(s[i as int]));
            assert(out@.map_values(|o: Order| order_plan(o)) =~= prev.map_values(|o: Order| order_plan(o)).push(order_plan(o)));
        }
        id = id + 1;
        i = i + 1;
    }
    proof {
        let s = side_orders(prefix@, next as nat, symbol@, side, levels@);
        assert(s.take(levels.len() as int) =~= s);
    }
    id
}

impl DataLoader {
    /// The three default users (see `default_users`).
    pub fn create_default_users() -> (r: Vec<FakeUser>)
        ensures
            r@.map_values(|u: FakeUser| user_view(u)) == default_users(),
    {
        let mut v: Vec<FakeUser> = Vec::new();
        v.push(user("user_001", "김투자", "retail", "scalping", 10_000_000_000));
        v.push(user("user_002", "박트레이더", "retail", "swing", 20_000_000_000));
        v.push(user("test_user_001", "테스트사용자", "retail", "day_trading", 50_000_000_000));
        proof {
            assert(v@.map_values(|u: FakeUser| user_view(u)) =~= default_users());
        }
        v
    }

    /// The users read from the users file, or the default users when the file could not
    /// be read or parsed (`None`).
    pub fn load_fake_users(read: Option<Vec<FakeUser>>) -> (r: Vec<FakeUser>)
        ensures
            match read {
                Some(users) => r == users,
                None => r@.map_values(|u: FakeUser| user_view(u)) == default_users(),
            },
    {
        match read {
            Some(users) => users,
            None => Self::create_default_users(),
        }
    }

    /// The orders that fill the initial books: per book, in order, a market maker's
    /// limit buy per bid level and limit sell per ask level, numbered from 1 across all
    /// books (see `initial_orders`).
    pub fn create_initial_orders(books: &Vec<InitialBook>) -> (r: Vec<Order>)
        requires
            total_levels(books@) < u64::MAX,
        ensures
            r@.map_values(|o: Order| order_plan(o)) == initial_orders(books@),
    {
        let mut orders: Vec<Order> = Vec::new();
        let mut next: u64 = 1;
        let mut k: usize = 0;
        proof {
            assert(orders@.map_values(|o: Order| order_plan(o)) =~= initial_orders(books@.take(0)));
        }
        while k < books.len()
            invariant
                k <= books.len(),
                total_levels(books@) < u64::MAX,
                next == 1 + total_levels(books@.take(k as int)),
                orders@.map_values(|o: Order| order_plan(o)) == initial_orders(books@.take(k as int)),
            decreases books.len() - k,
        {
            let ghost t = books@.take(k + 1);
            proof {
                assert(t.drop_last() =~= books@.take(k as int));
                assert(t.last() == books@[k as int]);
                lemma_total_levels_prefix(books@, k + 1);
            }
            let b = &books[k];
            let mid = push_side(&mut orders, "init_bid_", next, &b.symbol, Side::Buy, &b.bids);
            let end = push_side(&mut orders, "init_ask_", mid, &b.symbol, Side::Sell, &b.asks);
            proof {
                reveal_strlit("init_bid_");
                reveal_strlit("init_ask_");
            }
            next = end;
            k = k + 1;
        }
        proof {
            assert(books@.take(books@.len() as int) =~= books@);
        }
        orders
    }
}

/// The levels of a prefix are no more than those of the whole.
proof fn lemma_total_levels_prefix(books: Seq<InitialBook>, k: int)
    requires
        0 <= k <= books.len(),
    ensures
        total_levels(books.take(k)) <= total_levels(books),
    decreases books.len() - k,
{
    if k < books.len() {
        lemma_total_levels_prefix(books, k + 1);
        let t = books.take(k + 1);
        assert(t.drop_last() =~= books.take(k));
    } else {
        assert(books.take(k) =~= books);
    }
}

/// One order per price level: the initial orders are as many as the levels of all the
/// books.
pub proof fn law_initial_orders_count(books: Seq<InitialBook>)
    ensures
        initial_orders(books).len() == total_levels(books),
    decreases books.len(),
{
    if books.len() > 0 {
        law_initial_orders_count(books.drop_last());
    }
}

} // verus!
