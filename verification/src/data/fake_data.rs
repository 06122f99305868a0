//! The made-up market the simulator trades in: per symbol its base price, volatility
//! and ranges, and the order templates it draws orders from.

use vstd::prelude::*;
use crate::keys::{first_pos, lemma_first_pos, lemma_first_pos_at};
use crate::model::{OrderType, Side};

verus! {

/// The made-up market of one symbol. The volatility is kept in basis points
/// (hundredths of a percent): 200 is a 2% move.
#[derive(Debug)]
pub struct FakeMarketData {
    pub symbol: String,
    pub base_price: u64,
    pub volatility_bp: u64,
    /// (smallest, largest) quantity.
    pub volume_range: (u64, u64),
    /// (lowest, highest) price.
    pub price_range: (u64, u64),
}

/// A template of made-up orders.
#[derive(Debug)]
pub struct FakeOrderData {
    pub symbol: String,
    pub side: Side,
    pub order_type: OrderType,
    pub price_range: (u64, u64),
    pub quantity_range: (u64, u64),
    /// How often an order is made, in milliseconds.
    pub frequency_ms: u64,
}

/// The plain values of a market.
pub open spec fn market_view(m: FakeMarketData) -> (Seq<char>, u64, u64, (u64, u64), (u64, u64)) {
    (m.symbol@, m.base_price, m.volatility_bp, m.volume_range, m.price_range)
}

/// The plain values of a template.
pub open spec fn template_view(t: FakeOrderData) -> (Seq<char>, Side, OrderType, (u64, u64), (u64, u64), u64) {
    (t.symbol@, t.side, t.order_type, t.price_range, t.quantity_range, t.frequency_ms)
}

/// The markets of the default dataset: BTC-KRW around 100 000 000 (2%), ETH-KRW around
/// 4 000 000 (3%) and AAPL around 200 000 (1.5%).
pub open spec fn default_markets() -> Seq<(Seq<char>, u64, u64, (u64, u64), (u64, u64))> {
    seq![
        ("BTC-KRW"@, 100_000_000u64, 200u64, (1u64, 100u64), (95_000_000u64, 105_000_000u64)),
        ("ETH-KRW"@, 4_000_000u64, 300u64, (1u64, 50u64), (3_800_000u64, 4_200_000u64)),
        ("AAPL"@, 200_000u64, 150u64, (10u64, 1000u64), (190_000u64, 210_000u64)),
    ]
}

/// The templates of the default dataset: limit buys and sells of each symbol, and
/// occasional market orders on BTC-KRW.
pub open spec fn default_templates() -> Seq<(Seq<char>, Side, OrderType, (u64, u64), (u64, u64), u64)> {
    seq![
        ("BTC-KRW"@, Side::Buy, OrderType::Limit, (98_000_000u64, 102_000_000u64), (1u64, 10u64), 2000u64),
        ("BTC-KRW"@, Side::Sell, OrderType::Limit, (98_000_000u64, 102_000_000u64), (1u64, 8u64), 3000u64),
        ("ETH-KRW"@, Side::Buy, OrderType::Limit, (3_900_000u64, 4_100_000u64), (1u64, 20u64), 2500u64),
        ("ETH-KRW"@, Side::Sell, OrderType::Limit, (3_900_000u64, 4_100_000u64), (1u64, 15u64), 3500u64),
        ("AAPL"@, Side::Buy, OrderType::Limit, (195_000u64, 205_000u64), (50u64, 500u64), 1500u64),
        ("AAPL"@, Side::Sell, OrderType::Limit, (195_000u64, 205_000u64), (50u64, 400u64), 2000u64),
        ("BTC-KRW"@, Side::Buy, OrderType::Market, (0u64, 0u64), (1u64, 5u64), 10000u64),
        ("BTC-KRW"@, Side::Sell, OrderType::Market, (0u64, 0u64), (1u64, 3u64), 12000u64),
    ]
}

/// The made-up markets (one per symbol) and the order templates.
#[derive(Debug)]
pub struct FakeDataset {
    pub market_data: Vec<FakeMarketData>,
    pub order_templates: Vec<FakeOrderData>,
}

/// The symbols of the markets, in order.
pub open spec fn market_symbols(m: Seq<FakeMarketData>) -> Seq<Seq<char>> {
    m.map_values(|d: FakeMarketData| d.symbol@)
}

fn market(symbol: &str, base_price: u64, volatility_bp: u64, volume_range: (u64, u64), price_range: (u64, u64))
    -> (r: FakeMarketData)
    ensures
        market_view(r) == (symbol@, base_price, volatility_bp, volume_range, price_range),
{
    FakeMarketData { symbol: String::from_str(symbol), base_price, volatility_bp, volume_range, price_range }
}

fn template(symbol: &str, side: Side, order_type: OrderType, price_range: (u64, u64), quantity_range: (u64, u64),
    frequency_ms: u64) -> (r: FakeOrderData)
    ensures
        template_view(r) == (symbol@, side, order_type, price_range, quantity_range, frequency_ms),
{
    FakeOrderData { symbol: String::from_str(symbol), side, order_type, price_range, quantity_range, frequency_ms }
}

impl Default for FakeDataset {
    /// The three default markets and the eight default templates.
    fn default() -> (r: Self)
        ensures
            r.market_data@.map_values(|m: FakeMarketData| market_view(m)) == default_markets(),
            r.order_templates@.map_values(|t: FakeOrderData| template_view(t)) == default_templates(),
    {
        let mut market_data: Vec<FakeMarketData> = Vec::new();
        market_data.push(market("BTC-KRW", 100_000_000, 200, (1, 100), (95_000_000, 105_000_000)));
        market_data.push(market("ETH-KRW", 4_000_000, 300, (1, 50), (3_800_000, 4_200_000)));
        market_data.push(market("AAPL", 200_000, 150, (10, 1000), (190_000, 210_000)));
        let mut order_templates: Vec<FakeOrderData> = Vec::new();
        order_templates.push(template("BTC-KRW", Side::Buy, OrderType::Limit, (98_000_000, 102_000_000), (1, 10), 2000));
        order_templates.push(template("BTC-KRW", Side::Sell, OrderType::Limit, (98_000_000, 102_000_000), (1, 8), 3000));
        order_templates.push(template("ETH-KRW", Side::Buy, OrderType::Limit, (3_900_000, 4_100_000), (1, 20), 2500));
        order_templates.push(template("ETH-KRW", Side::Sell, OrderType::Limit, (3_900_000, 4_100_000), (1, 15), 3500));
        order_templates.push(template("AAPL", Side::Buy, OrderType::Limit, (195_000, 205_000), (50, 500), 1500));
        order_templates.push(template("AAPL", Side::Sell, OrderType::Limit, (195_000, 205_000), (50, 400), 2000));
        order_templates.push(template("BTC-KRW", Side::Buy, OrderType::Market, (0, 0), (1, 5), 10000));
        order_templates.push(template("BTC-KRW", Side::Sell, OrderType::Market, (0, 0), (1, 3), 12000));
        proof {
            assert(market_data@.map_values(|m: FakeMarketData| market_view(m)) =~= default_markets());
            assert(order_templates@.map_values(|t: FakeOrderData| template_view(t)) =~= default_templates());
        }
        FakeDataset { market_data, order_templates }
    }
}

impl FakeDataset {
    /// The market of `symbol`, the first listed under it; none when there is none.
    pub fn get_market_data(&self, symbol: &str) -> (r: Option<&FakeMarketData>)
        ensures
            ({
                let k = first_pos(market_symbols(self.market_data@), symbol@);
                &&& (r is Some) == (k < self.market_data@.len())
                &&& r matches Some(m) ==> *m == self.market_data@[k as int]
            }),
    {
        let ghost ks = market_symbols(self.market_data@);
        proof {
            lemma_first_pos(ks, symbol@);
        }
        let key = String::from_str(symbol);
        let mut i: usize = 0;
        while i < self.market_data.len()
            invariant
                ks == market_symbols(self.market_data@),
                key@ == symbol@,
                i <= self.market_data@.len(),
                forall|j: int| 0 <= j < i ==> ks[j] != symbol@,
            decreases self.market_data@.len() - i,
        {
            if self.market_data[i].symbol == key {
                proof {
                    lemma_first_pos_at(ks, symbol@, i as int);
                }
                return Some(&self.market_data[i]);
            }
            i = i + 1;
        }
        proof {
            lemma_first_pos_at(ks, symbol@, i as int);
        }
        None
    }

    /// The order templates, in order.
    pub fn get_order_templates(&self) -> (r: &Vec<FakeOrderData>)
        ensures
            r@ == self.order_templates@,
    {
        &self.order_templates
    }
}

} // verus!
