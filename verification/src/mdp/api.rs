//! The answers of the market data HTTP interface, and its client.

use vstd::prelude::*;
use crate::keys::first_pos;
use crate::mdp::consumer::{CandlestickData, MDPConsumer, MDPConsumerStats, candle_keys};
use crate::outside::unix_time_millis;

verus! {

/// The envelope of every answer.
#[derive(Debug)]
pub struct ApiResponse<T> {
    pub success: bool,
    pub data: Option<T>,
    pub error: Option<String>,
    pub timestamp: u64,
}

/// A request for a candle.
#[derive(Debug)]
pub struct CandlestickRequest {
    pub symbol: String,
    pub timeframe: String,
    pub limit: Option<u32>,
}

/// A request for statistics, of one symbol or of all.
#[derive(Debug)]
pub struct MarketStatisticsRequest {
    pub symbol: Option<String>,
}

/// A candle with its symbol and timeframe.
#[derive(Debug)]
pub struct CandlestickResponse {
    pub symbol: String,
    pub timeframe: String,
    pub candlestick: CandlestickData,
}

/// The status code of an answer that found nothing.
pub open spec fn not_found() -> u16 {
    404
}

/// The answer to a health check at `now`.
pub fn health_response(now: u64) -> (r: ApiResponse<String>)
    ensures
        r.success,
        (r.data matches Some(d) && d@ == "MDP API 서버가 정상적으로 실행 중입니다."@),
        r.error is None,
        r.timestamp == now,
{
    ApiResponse {
        success: true,
        data: Some(String::from_str("MDP API 서버가 정상적으로 실행 중입니다.")),
        error: None,
        timestamp: now,
    }
}

/// The answer with the consumer's counts at `now`.
pub fn consumer_stats_response(consumer: &MDPConsumer, now: u64) -> (r: ApiResponse<MDPConsumerStats>)
    ensures
        r.success,
        (r.data matches Some(s) && s.candlestick_count == crate::mdp::consumer::candle_symbols(consumer.candles())
            && s.statistics_count == consumer.stats().len() && s.trades_count == consumer.groups().len()
            && s.is_processing == consumer.processing()),
        r.error is None,
        r.timestamp == now,
{
    ApiResponse { success: true, data: Some(consumer.get_consumer_stats()), error: None, timestamp: now }
}

/// The answer with the candle of `symbol` and `timeframe` at `now`; not found (404)
/// when the consumer has none.
pub fn candlestick_response(consumer: &MDPConsumer, symbol: &str, timeframe: &str, now: u64) -> (r: Result<
    ApiResponse<CandlestickResponse>,
    u16,
>)
    ensures
        ({
            let k = first_pos(candle_keys(consumer.candles()), (symbol@, timeframe@));
            &&& (r is Ok) == (k < consumer.candles().len())
            &&& r is Err ==> r == Err::<ApiResponse<CandlestickResponse>, u16>(not_found())
            &&& r matches Ok(a) ==> a.success && a.error is None && a.timestamp == now && (a.data matches Some(
                d,
            ) && d.symbol@ == symbol@ && d.timeframe@ == timeframe@ && d.candlestick == consumer.candles()[k as int])
        }),
{
    match consumer.get_candlestick_data(symbol, timeframe) {
        Some(candlestick) => {
            let response = CandlestickResponse {
                symbol: String::from_str(symbol),
                timeframe: String::from_str(timeframe),
                candlestick,
            };
            Ok(ApiResponse { success: true, data: Some(response), error: None, timestamp: now })
        },
        None => Err(404),
    }
}

/// The answer to a request for candles at `now`: the candle of the requested symbol and
/// timeframe when there is one, else none.
pub fn candlesticks_response(consumer: &MDPConsumer, request: &CandlestickRequest, now: u64) -> (r: ApiResponse<
    Vec<CandlestickResponse>,
>)
    ensures
        ({
            let k = first_pos(candle_keys(consumer.candles()), (request.symbol@, request.timeframe@));
            &&& r.success && r.error is None && r.timestamp == now
            &&& (r.data matches Some(v) && v@.len() == (if k < consumer.candles().len() { 1int } else { 0int })
                && (v@.len() == 1 ==> v@[0].symbol == request.symbol && v@[0].timeframe == request.timeframe
                && v@[0].candlestick == consumer.candles()[k as int]))
        }),
{
    let mut responses: Vec<CandlestickResponse> = Vec::new();
    match consumer.get_candlestick_data(request.symbol.as_str(), request.timeframe.as_str()) {
        Some(candlestick) => {
            responses.push(
                CandlestickResponse {
                    symbol: request.symbol.clone(),
                    timeframe: request.timeframe.clone(),
                    candlestick,
                },
            );
        },
        None => {},
    }
    ApiResponse { success: true, data: Some(responses), error: None, timestamp: now }
}

/// A client of the market data interface (answers made up locally).
#[derive(Debug)]
pub struct MDPApiClient {
    pub base_url: String,
}

impl MDPApiClient {
    /// A client of the interface at `base_url`.
    pub fn new(base_url: String) -> (r: Self)
        ensures
            r.base_url == base_url,
    {
        MDPApiClient { base_url }
    }

    /// A health check: always healthy, stamped with the time now.
    pub fn health_check(&self) -> (r: Result<ApiResponse<String>, String>)
        ensures
            r matches Ok(a) && a.success && a.error is None && (a.data matches Some(d)
                && d@ == "MDP API 서버가 정상적으로 실행 중입니다."@),
    {
        Ok(health_response(unix_time_millis()))
    }

    /// The candle of `symbol` and `timeframe`: a fixed sample (open 50 000 000, high
    /// 51 000 000, low 49 000 000, close 50 500 000, volume 1000, 10 trades), stamped
    /// with the time now.
    pub fn get_candlestick(&self, symbol: &str, timeframe: &str) -> (r: Result<
        ApiResponse<CandlestickResponse>,
        String,
    >)
        ensures
            r matches Ok(a) && a.success && a.error is None && (a.data matches Some(d) && d.symbol@ == symbol@
                && d.timeframe@ == timeframe@ && d.candlestick.symbol@ == symbol@ && d.candlestick.timeframe@
                == timeframe@ && d.candlestick.open == 50000000 && d.candlestick.high == 51000000
                && d.candlestick.low == 49000000 && d.candlestick.close == 50500000 && d.candlestick.volume
                == 1000 && d.candlestick.trade_count == 10),
    {
        let candlestick = CandlestickData {
            symbol: String::from_str(symbol),
            timeframe: String::from_str(timeframe),
            open: 50000000,
            high: 51000000,
            low: 49000000,
            close: 50500000,
            volume: 1000,
            timestamp: unix_time_millis(),
            trade_count: 10,
        };
        let response = CandlestickResponse {
            symbol: String::from_str(symbol),
            timeframe: String::from_str(timeframe),
            candlestick,
        };
        Ok(ApiResponse { success: true, data: Some(response), error: None, timestamp: unix_time_millis() })
    }
}

} // verus!
