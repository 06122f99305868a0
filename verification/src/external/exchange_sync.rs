//! The exchanges whose prices are compared with ours, and the symbols both sides quote.

use vstd::prelude::*;
use crate::text::join3;

verus! {

/// An outside exchange.
#[derive(Debug, Clone, Copy, PartialEq, Eq, Structural)]
pub enum ExchangeType {
    Binance,
    Coinbase,
    Kraken,
    Upbit,
    Bithumb,
}

/// The name of an exchange.
pub open spec fn exchange_name(e: ExchangeType) -> Seq<char> {
    match e {
        ExchangeType::Binance => "Binance"@,
        ExchangeType::Coinbase => "Coinbase"@,
        ExchangeType::Kraken => "Kraken"@,
        ExchangeType::Upbit => "Upbit"@,
        ExchangeType::Bithumb => "Bithumb"@,
    }
}

impl ExchangeType {
    /// The exchange's name, e.g. "Binance".
    pub fn to_string(&self) -> (r: String)
        ensures
            r@ == exchange_name(*self),
    {
        match self {
            ExchangeType::Binance => String::from_str("Binance"),
            ExchangeType::Coinbase => String::from_str("Coinbase"),
            ExchangeType::Kraken => String::from_str("Kraken"),
            ExchangeType::Upbit => String::from_str("Upbit"),
            ExchangeType::Bithumb => String::from_str("Bithumb"),
        }
    }
}

/// Every exchange, in the order they are watched by default.
pub open spec fn all_exchanges() -> Seq<ExchangeType> {
    seq![ExchangeType::Binance, ExchangeType::Coinbase, ExchangeType::Kraken, ExchangeType::Upbit, ExchangeType::Bithumb]
}

/// The exchanges watched by default.
pub fn default_exchanges() -> (r: Vec<ExchangeType>)
    ensures
        r@ == all_exchanges(),
{
    let mut v: Vec<ExchangeType> = Vec::new();
    v.push(ExchangeType::Binance);
    v.push(ExchangeType::Coinbase);
    v.push(ExchangeType::Kraken);
    v.push(ExchangeType::Upbit);
    v.push(ExchangeType::Bithumb);
    proof {
        assert(v@ =~= all_exchanges());
    }
    v
}

/// The base price of a quoted symbol, in won: BTC-KRW 50 000 000, ETH-KRW 3 000 000,
/// XRP-KRW 500; none for the others.
pub open spec fn base_price_of(symbol: Seq<char>) -> Option<u64> {
    if symbol == "BTC-KRW"@ { Some(50_000_000) }
    else if symbol == "ETH-KRW"@ { Some(3_000_000) }
    else if symbol == "XRP-KRW"@ { Some(500) }
    else { None }
}

fn same_text(a: &str, b: &str) -> (r: bool)
    ensures
        r == (a@ == b@),
{
    String::from_str(a) == String::from_str(b)
}

/// The base price that both our and the outside prices move around, or the refusal
/// "지원하지 않는 심볼: <symbol>" for a symbol that is not quoted.
pub fn base_price(symbol: &str) -> (r: Result<u64, String>)
    ensures
        match base_price_of(symbol@) {
            Some(p) => r == Ok::<u64, String>(p),
            None => r matches Err(m) && m@ == "지원하지 않는 심볼: "@ + symbol@,
        },
{
    if same_text(symbol, "BTC-KRW") {
        Ok(50_000_000)
    } else if same_text(symbol, "ETH-KRW") {
        Ok(3_000_000)
    } else if same_text(symbol, "XRP-KRW") {
        Ok(500)
    } else {
        let m = join3("지원하지 않는 심볼: ", symbol, "");
        proof {
            reveal_strlit("");
            assert(m@ =~= "지원하지 않는 심볼: "@ + symbol@);
        }
        Err(m)
    }
}

/// The symbols synchronized by default.
pub fn default_symbols() -> (r: Vec<String>)
    ensures
        r@.map_values(|s: String| s@) == seq!["BTC-KRW"@, "ETH-KRW"@, "XRP-KRW"@],
{
    let mut v: Vec<String> = Vec::new();
    v.push(String::from_str("BTC-KRW"));
    v.push(String::from_str("ETH-KRW"));
    v.push(String::from_str("XRP-KRW"));
    proof {
        assert(v@.map_values(|s: String| s@) =~= seq!["BTC-KRW"@, "ETH-KRW"@, "XRP-KRW"@]);
    }
    v
}

} // verus!
