//! What the exchange answers its clients: order submission and cancellation, order
//! book, executions and candles. Transport (HTTP, channels) is the caller's; here are
//! the checks, the orders made and the answers.

use vstd::prelude::*;
use crate::api::models::{CancelOrderRequest, CancelOrderResponse, CandleData, CandleResponse, ErrorResponse,
    ExecutionResponse, OrderBookResponse, OrderRequest, OrderResponse};
use crate::dashboard::keep_last;
use crate::engine::{book_pos, MatchingEngine};
use crate::mdp::model::CandlestickData;
use crate::mdp::publisher::{candles_of, executions_of, stats_of, MarketDataPublisher, SymbolStatistics};
use crate::model::{Order, OrderType};
use crate::order_book::{depth_levels, cancel_found, cancelled_book};
use crate::outside::{new_uuid_string, utc_now_secs};
use crate::text::join3;

verus! {

/// Whether `e` is the error `code` with message `message`.
pub open spec fn error_is(e: ErrorResponse, code: Seq<char>, message: Seq<char>) -> bool {
    e.error@ == code && e.message@ == message
}

fn error(code: &str, message: &str) -> (r: ErrorResponse)
    ensures
        error_is(r, code@, message@),
{
    ErrorResponse { error: String::from_str(code), message: String::from_str(message) }
}

/// Checks an order submission and makes the order. Refused with 400: no quantity
/// ("INVALID_QUANTITY"), a limit order without price ("MISSING_PRICE") or with price 0
/// ("INVALID_PRICE"), in that order. Otherwise the order gets a fresh id, the request's
/// fields (price 0 when there is none) and the answer "ACCEPTED" under that id.
pub fn submit_order(payload: &OrderRequest) -> (r: Result<(Order, OrderResponse), (u16, ErrorResponse)>)
    ensures
        ({
            let limit = payload.order_type == OrderType::Limit;
            if payload.quantity == 0 {
                r matches Err((code, e)) && code == 400 && error_is(e, "INVALID_QUANTITY"@, "수량은 0보다 커야 합니다"@)
            } else if limit && payload.price is None {
                r matches Err((code, e)) && code == 400 && error_is(e, "MISSING_PRICE"@, "지정가 주문에는 가격이 필요합니다"@)
            } else if limit && payload.price == Some(0u64) {
                r matches Err((code, e)) && code == 400 && error_is(e, "INVALID_PRICE"@, "가격은 0보다 커야 합니다"@)
            } else {
                r matches Ok((o, resp)) && {
                    &&& o.id@.len() == 36
                    &&& resp.order_id == o.id
                    &&& resp.status@ == "ACCEPTED"@
                    &&& resp.message@ == "주문이 접수되었습니다. 체결 결과는 WebSocket으로 전달됩니다"@
                    &&& o.symbol == payload.symbol
                    &&& o.side == payload.side
                    &&& o.order_type == payload.order_type
                    &&& o.price == match payload.price { Some(p) => p, None => 0u64 }
                    &&& o.quantity == payload.quantity
                    &&& o.remaining_quantity == payload.quantity
                    &&& o.client_id == payload.client_id
                    &&& !o.is_cancel
                }
            }
        }),
{
    if payload.quantity == 0 {
        return Err((400, error("INVALID_QUANTITY", "수량은 0보다 커야 합니다")));
    }
    let limit = payload.order_type == OrderType::Limit;
    if limit && payload.price.is_none() {
        return Err((400, error("MISSING_PRICE", "지정가 주문에는 가격이 필요합니다")));
    }
    let price = match payload.price {
        Some(p) => p,
        None => 0,
    };
    if limit && price == 0 {
        return Err((400, error("INVALID_PRICE", "가격은 0보다 커야 합니다")));
    }
    let order_id = new_uuid_string();
    let order = Order::new(
        order_id.clone(),
        payload.symbol.clone(),
        payload.side,
        payload.order_type,
        price,
        payload.quantity,
        payload.client_id.clone(),
    );
    let response = OrderResponse {
        order_id,
        status: String::from_str("ACCEPTED"),
        message: String::from_str("주문이 접수되었습니다. 체결 결과는 WebSocket으로 전달됩니다"),
    };
    Ok((order, response))
}

/// The answer when the order could not be passed on: 503 "ORDER_SEND_FAILED" with
/// "주문 전송 실패: <reason>".
pub fn order_send_failed(reason: &str) -> (r: (u16, ErrorResponse))
    ensures
        r.0 == 503,
        error_is(r.1, "ORDER_SEND_FAILED"@, "주문 전송 실패: "@ + reason@),
{
    let message = join3("주문 전송 실패: ", reason, "");
    proof {
        reveal_strlit("");
        assert(message@ =~= "주문 전송 실패: "@ + reason@);
    }
    (503, ErrorResponse { error: String::from_str("ORDER_SEND_FAILED"), message })
}

/// Cancels an order: refused with 404 "ORDER_NOT_FOUND" when the engine does not hold
/// it (nothing changes); otherwise a cancel request for it goes to the engine and the
/// answer is "CANCELLED". The book of its symbol cancels it through its index, and the
/// order leaves the engine's store when the book gave it back.
pub fn cancel_order(engine: &mut MatchingEngine, payload: CancelOrderRequest) -> (r: Result<CancelOrderResponse, (u16, ErrorResponse)>)
    requires
        old(engine).wf(),
    ensures
        final(engine).wf(),
        (r is Ok) == old(engine).store().contains_key(payload.order_id@),
        r matches Err((code, e)) ==> code == 404 && error_is(e, "ORDER_NOT_FOUND"@, "주문을 찾을 수 없습니다"@)
            && final(engine).store() == old(engine).store() && final(engine).books() == old(engine).books(),
        r matches Ok(resp) ==> resp.order_id == payload.order_id && resp.status@ == "CANCELLED"@
            && resp.message@ == "주문이 취소되었습니다"@,
        ({
            let t = payload.order_id@;
            let bi = book_pos(old(engine).books(), old(engine).store()[t].symbol@) as int;
            if old(engine).store().contains_key(t) && bi < old(engine).books().len() {
                let b = old(engine).books()[bi];
                &&& final(engine).books().len() == old(engine).books().len()
                &&& forall|j: int| 0 <= j < old(engine).books().len() && j != bi
                    ==> final(engine).books()[j] == old(engine).books()[j]
                &&& cancelled_book(b, t, final(engine).books()[bi])
                &&& final(engine).store() == if cancel_found(b, t) is Some {
                    old(engine).store().remove(t)
                } else {
                    old(engine).store()
                }
            } else {
                &&& final(engine).store() == old(engine).store()
                &&& final(engine).books() == old(engine).books()
            }
        }),
{
    if engine.get_order(payload.order_id.as_str()).is_none() {
        return Err((404, error("ORDER_NOT_FOUND", "주문을 찾을 수 없습니다")));
    }
    let cancel = Order::new_cancel(payload.order_id.clone());
    let _report = engine.handle_cancel_order(&cancel);
    Ok(CancelOrderResponse {
        order_id: payload.order_id,
        status: String::from_str("CANCELLED"),
        message: String::from_str("주문이 취소되었습니다"),
    })
}

/// The order book of `symbol` to `depth` levels per side (10 when not given), or 404
/// "SYMBOL_NOT_FOUND" for a symbol without a book.
pub fn get_orderbook(engine: &MatchingEngine, symbol: &str, depth: Option<usize>) -> (r: Result<OrderBookResponse, (u16, ErrorResponse)>)
    ensures
        ({
            let bi = book_pos(engine.books(), symbol@) as int;
            let d: usize = match depth { Some(d) => d, None => 10 };
            if bi < engine.books().len() {
                r matches Ok(resp) && resp.orderbook.symbol == engine.books()[bi].symbol
                    && resp.orderbook.bids@ == depth_levels(engine.books()[bi].bids@, d)
                    && resp.orderbook.asks@ == depth_levels(engine.books()[bi].asks@, d)
            } else {
                r matches Err((code, e)) && code == 404 && error_is(e, "SYMBOL_NOT_FOUND"@, "지원하지 않는 심볼입니다"@)
            }
        }),
{
    let d = match depth {
        Some(d) => d,
        None => 10,
    };
    match engine.get_order_book_snapshot(symbol, d) {
        Some(orderbook) => Ok(OrderBookResponse { orderbook }),
        None => Err((404, error("SYMBOL_NOT_FOUND", "지원하지 않는 심볼입니다"))),
    }
}

/// The last `limit` executions of `symbol` (100 when not given), oldest first.
pub fn get_executions(publisher: &MarketDataPublisher, symbol: &str, limit: Option<usize>) -> (r: ExecutionResponse)
    ensures
        r.executions@ == keep_last(executions_of(publisher.execs(), symbol@),
            (match limit { Some(l) => l, None => 100usize }) as nat),
{
    let l = match limit {
        Some(l) => l,
        None => 100,
    };
    ExecutionResponse { executions: publisher.get_executions(symbol, l) }
}

/// The statistics of `symbol`, or, when there are none, empty statistics of `symbol`
/// (no prices, no volume) stamped with the time of the call in seconds. (The 24-hour
/// price change that clients also get is a fraction, worked out from the open and last
/// prices by the caller.)
pub fn get_statistics(publisher: &MarketDataPublisher, symbol: String) -> (r: SymbolStatistics)
    ensures
        match stats_of(publisher.stats(), symbol@) {
            Some(s) => r == s,
            None => {
                &&& r.symbol == symbol
                &&& r.open_price_24h is None
                &&& r.high_price_24h is None
                &&& r.low_price_24h is None
                &&& r.last_price is None
                &&& r.volume_24h == 0
                &&& r.bid_price is None
                &&& r.ask_price is None
            },
        },
{
    match publisher.get_statistics(symbol.as_str()) {
        Some(s) => s,
        None => SymbolStatistics {
            symbol,
            timestamp: utc_now_secs(),
            open_price_24h: None,
            high_price_24h: None,
            low_price_24h: None,
            last_price: None,
            volume_24h: 0,
            bid_price: None,
            ask_price: None,
        },
    }
}

/// A candle as sent to clients.
pub open spec fn candle_data_of(c: CandlestickData) -> CandleData {
    CandleData {
        open_time: c.open_time,
        close_time: c.close_time,
        open: c.open,
        high: c.high,
        low: c.low,
        close: c.close,
        volume: c.volume,
        trade_count: c.trade_count,
    }
}

/// The last `limit` candles of `symbol` and `interval` (100 when not given), oldest
/// first.
pub fn get_candles(publisher: &MarketDataPublisher, symbol: String, interval: String, limit: Option<usize>) -> (r: CandleResponse)
    ensures
        r.symbol == symbol,
        r.interval == interval,
        r.candles@ == keep_last(candles_of(publisher.series(), symbol@, interval@),
            (match limit { Some(l) => l, None => 100usize }) as nat).map_values(|c: CandlestickData| candle_data_of(c)),
{
    let l = match limit {
        Some(l) => l,
        None => 100,
    };
    let candlesticks = publisher.get_candles(symbol.as_str(), interval.as_str(), l);
    let mut candles: Vec<CandleData> = Vec::new();
    let mut i: usize = 0;
    while i < candlesticks.len()
        invariant
            i <= candlesticks@.len(),
            candles@ == candlesticks@.take(i as int).map_values(|c: CandlestickData| candle_data_of(c)),
        decreases candlesticks@.len() - i,
    {
        let c = &candlesticks[i];
        candles.push(CandleData {
            open_time: c.open_time,
            close_time: c.close_time,
            open: c.open,
            high: c.high,
            low: c.low,
            close: c.close,
            volume: c.volume,
            trade_count: c.trade_count,
        });
        proof {
            assert(candlesticks@.take(i + 1) =~= candlesticks@.take(i as int).push(candlesticks@[i as int]));
            assert(candles@ =~= candlesticks@.take(i + 1).map_values(|c: CandlestickData| candle_data_of(c)));
        }
        i = i + 1;
    }
    proof {
        assert(candlesticks@.take(candlesticks@.len() as int) =~= candlesticks@);
    }
    CandleResponse { symbol, interval, candles }
}

} // verus!
