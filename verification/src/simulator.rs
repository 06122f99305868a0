//! The orders of the load simulator: the kind of order a simulated trader sends, and a
//! random order drawn from it.

use vstd::prelude::*;
use crate::outside::random_in;
use crate::text::{decimal_of, with_number};

verus! {

/// A kind of order a simulated trader sends: symbol, side ("Buy" or "Sell") and type
/// ("Limit" or "Market"), the price and quantity ranges (both ends included), and how
/// often, in milliseconds.
#[derive(Debug)]
pub struct OrderTemplate {
    pub symbol: String,
    pub side: String,
    pub order_type: String,
    pub price_range: (u64, u64),
    pub quantity_range: (u64, u64),
    pub frequency_ms: u64,
}

impl OrderTemplate {
    /// A template with the given fields.
    pub fn new(
        symbol: &str,
        side: &str,
        order_type: &str,
        price_range: (u64, u64),
        quantity_range: (u64, u64),
        frequency_ms: u64,
    ) -> (r: Self)
        ensures
            r.symbol@ == symbol@,
            r.side@ == side@,
            r.order_type@ == order_type@,
            r.price_range == price_range,
            r.quantity_range == quantity_range,
            r.frequency_ms == frequency_ms,
    {
        OrderTemplate {
            symbol: String::from_str(symbol),
            side: String::from_str(side),
            order_type: String::from_str(order_type),
            price_range,
            quantity_range,
            frequency_ms,
        }
    }
}

/// An order as the simulator sends it to the order API.
#[derive(Debug)]
pub struct SimulatedOrder {
    pub symbol: String,
    pub side: String,
    pub order_type: String,
    pub price: u64,
    pub quantity: u64,
    pub client_id: String,
}

/// Whether a template's type is "Market".
pub open spec fn is_market(t: OrderTemplate) -> bool {
    t.order_type@ == "Market"@
}

/// A random order from `template`: from client "simulator_<n>" with `n` in 1..=10, at
/// price 0 when the template is for market orders and otherwise at a price in its
/// range, for a quantity in its range.
pub fn create_random_order(template: &OrderTemplate) -> (r: SimulatedOrder)
    requires
        !is_market(*template) ==> template.price_range.0 <= template.price_range.1,
        template.quantity_range.0 <= template.quantity_range.1,
    ensures
        r.symbol@ == template.symbol@,
        r.side@ == template.side@,
        r.order_type@ == template.order_type@,
        exists|n: u64| 1 <= n <= 10 && #[trigger] r.client_id@ == "simulator_"@ + decimal_of(n as nat),
        is_market(*template) ==> r.price == 0,
        !is_market(*template) ==> template.price_range.0 <= r.price <= template.price_range.1,
        template.quantity_range.0 <= r.quantity <= template.quantity_range.1,
{
    let n = random_in(1, 10);
    let client_id = with_number("simulator_", n);
    let market = template.order_type == String::from_str("Market");
    let price = if market { 0 } else { random_in(template.price_range.0, template.price_range.1) };
    let quantity = random_in(template.quantity_range.0, template.quantity_range.1);
    SimulatedOrder {
        symbol: template.symbol.clone(),
        side: template.side.clone(),
        order_type: template.order_type.clone(),
        price,
        quantity,
        client_id,
    }
}

} // verus!
