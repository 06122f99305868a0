use xtrader::api::handlers::{cancel_order, get_candles, get_executions, get_orderbook, get_statistics,
    order_send_failed, submit_order};
use xtrader::simulator::{create_random_order, OrderTemplate};
use xtrader::api::models::{CancelOrderRequest, OrderRequest};
use xtrader::engine::MatchingEngine;
use xtrader::mdp::publisher::MarketDataPublisher;
use xtrader::analytics::{generate_cache_key, AnalysisRequest, AnalysisRequestType, AnalysisScheduler,
    AnalyticsIntegrationConfig, AnalyticsSystem};
use xtrader::data::fake_data::FakeDataset;
use xtrader::data::loader::{DataLoader, InitialBook};
use xtrader::db::async_commit::{AsyncCommitManager, CommitStats};
use xtrader::db::models::ExecutionRecord;
use xtrader::db::optimized_pool::{batch_insert_executions, get_pool_status, ReadPoolRotation};
use xtrader::external::exchange_sync::{base_price, default_exchanges, ExchangeType};
use xtrader::external::regulatory_reporting::{default_report_intervals, detect_suspicious_activity, generate_report,
    large_transaction_report, scheduled_report_types, RegulatoryAgency, RegulatoryReportingManager, ReportStatus,
    TransactionFacts,
    ReportType};
use xtrader::mdp::api::{ApiResponse, MDPApiClient};
use xtrader::mdp::cache::{CacheConfig, CacheKey, MDPCacheManager};
use xtrader::mdp::consumer::{create_mock_trade_data, timeframe_to_ms, MDPConsumer, MDPConsumerConfig, TradeData};
use xtrader::model::{ExecutionReport, Order, OrderType, Side};
use xtrader::text::decimal;
use xtrader::ultra::{ExecutionError, UltraFastMatchingEngine};

fn request(id: &str) -> AnalysisRequest {
    AnalysisRequest {
        request_id: id.to_string(),
        system: AnalyticsSystem::MachineLearning,
        request_type: AnalysisRequestType::PricePrediction,
        symbol: Some("BTC-KRW".to_string()),
        data: serde_json::Value::from(50000000u64),
        timestamp: 1,
        priority: 5,
        timeout_ms: 30000,
    }
}

#[test]
fn test_analytics_integration_manager_creation() {
    let scheduler = AnalysisScheduler::new(&AnalyticsIntegrationConfig::default());
    assert_eq!(scheduler.pending_requests(), 0);
    assert_eq!(scheduler.active_requests(), 0);
    assert!(!scheduler.is_analyzing());
}

#[test]
fn test_analysis_request_submission() {
    let mut scheduler = AnalysisScheduler::new(&AnalyticsIntegrationConfig::default());
    let result = scheduler.submit_analysis_request(request("test_request_1"));
    assert_eq!(result, Ok("test_request_1".to_string()));
    assert_eq!(scheduler.pending_requests(), 1);
}

#[test]
fn analysis_runs_highest_priority_first() {
    let mut scheduler = AnalysisScheduler::new(&AnalyticsIntegrationConfig::default());
    let mut a = request("a");
    a.priority = 3;
    let mut b = request("b");
    b.priority = 10;
    let mut c = request("c");
    c.priority = 10;
    scheduler.submit_analysis_request(a).unwrap();
    scheduler.submit_analysis_request(b).unwrap();
    scheduler.submit_analysis_request(c).unwrap();
    assert_eq!(scheduler.next_request().unwrap().request_id, "b");
    assert_eq!(scheduler.next_request().unwrap().request_id, "c");
    assert_eq!(scheduler.active_requests(), 2);
    scheduler.finish_request();
    assert_eq!(scheduler.active_requests(), 1);
}

#[test]
fn test_cache_key_generation() {
    assert_eq!(generate_cache_key(&request("test_request_1")), "MachineLearning_PricePrediction_BTC-KRW");
    let mut r = request("x");
    r.symbol = None;
    assert_eq!(generate_cache_key(&r), "MachineLearning_PricePrediction_");
}

#[test]
fn test_analytics_config() {
    let config = AnalyticsIntegrationConfig {
        systems: vec![AnalyticsSystem::MachineLearning],
        request_timeout_ms: 60000,
        max_concurrent_requests: 50,
        enable_caching: false,
        cache_ttl_ms: 600000,
        retry_attempts: 5,
        retry_interval_ms: 2000,
    };
    assert_eq!(config.systems.len(), 1);
    assert_eq!(config.request_timeout_ms, 60000);
    assert_eq!(config.max_concurrent_requests, 50);
    assert!(!config.enable_caching);
    assert_eq!(config.retry_attempts, 5);
}

#[test]
fn test_mdp_consumer_creation() {
    let consumer = MDPConsumer::new(MDPConsumerConfig::default());
    let stats = consumer.get_consumer_stats();
    assert_eq!(stats.candlestick_count, 0);
    assert_eq!(stats.statistics_count, 0);
    assert_eq!(stats.trades_count, 0);
}

#[test]
fn test_timeframe_conversion() {
    assert_eq!(timeframe_to_ms("1m").unwrap(), 60000);
    assert_eq!(timeframe_to_ms("5m").unwrap(), 300000);
    assert_eq!(timeframe_to_ms("1h").unwrap(), 3600000);
    assert_eq!(timeframe_to_ms("1d").unwrap(), 86400000);
    assert!(timeframe_to_ms("invalid").is_err());
}

#[test]
fn test_trade_data_creation() {
    let trades = create_mock_trade_data();
    assert!(!trades.is_empty());
    for trade in trades {
        assert!(!trade.symbol.is_empty());
        assert!(trade.price > 0);
        assert!(trade.quantity > 0);
        assert!(trade.timestamp > 0);
        assert!(!trade.trade_id.is_empty());
    }
}

#[test]
fn test_candlestick_calculation() {
    let mut consumer = MDPConsumer::new(MDPConsumerConfig::default());
    let now: u64 = 1_700_000_040_000;
    consumer.add_trades(vec![
        TradeData { symbol: "BTC-KRW".to_string(), price: 50000000, quantity: 1000, timestamp: now,
            side: "buy".to_string(), trade_id: "test1".to_string() },
        TradeData { symbol: "BTC-KRW".to_string(), price: 51000000, quantity: 2000, timestamp: now + 1000,
            side: "sell".to_string(), trade_id: "test2".to_string() },
    ]);
    assert!(consumer.calculate_candlesticks(now).is_ok());
    let candlestick = consumer.get_candlestick_data("BTC-KRW", "1m").unwrap();
    assert_eq!(candlestick.symbol, "BTC-KRW");
    assert_eq!(candlestick.timeframe, "1m");
    assert_eq!(candlestick.open, 50000000);
    assert_eq!(candlestick.close, 51000000);
    assert_eq!(candlestick.high, 51000000);
    assert_eq!(candlestick.low, 50000000);
    assert_eq!(candlestick.volume, 3000);
    assert_eq!(candlestick.trade_count, 2);
}

#[test]
fn test_api_response_creation() {
    let response = ApiResponse { success: true, data: Some("test".to_string()), error: None, timestamp: 1234567890 };
    assert!(response.success);
    assert_eq!(response.data, Some("test".to_string()));
    assert!(response.error.is_none());
    assert_eq!(response.timestamp, 1234567890);
}

#[test]
fn test_mdp_api_client_creation() {
    let client = MDPApiClient::new("http://localhost:3001".to_string());
    assert_eq!(client.base_url, "http://localhost:3001");
}

#[test]
fn test_cache_key_conversion() {
    assert_eq!(CacheKey::Candlestick("BTC-KRW".to_string(), "1m".to_string()).to_string(), "candlestick:BTC-KRW:1m");
    assert_eq!(CacheKey::Statistics("BTC-KRW".to_string()).to_string(), "statistics:BTC-KRW");
    assert_eq!(CacheKey::AllStatistics.to_string(), "statistics:all");
}

#[test]
fn test_cache_manager_creation() {
    let manager = MDPCacheManager::new(CacheConfig::default());
    let stats = manager.get_cache_stats();
    assert_eq!(stats.hits, 0);
    assert_eq!(stats.misses, 0);
    assert_eq!(stats.sets, 0);
}

#[test]
fn cache_manager_keeps_and_expires_bytes() {
    let mut manager = MDPCacheManager::new(CacheConfig::default());
    manager.cache_candlestick("BTC-KRW", "1m", vec![1, 2, 3], 0);
    let key = CacheKey::Candlestick("BTC-KRW".to_string(), "1m".to_string());
    assert_eq!(manager.get_bytes(&key, 1), Some(vec![1, 2, 3]));
    assert!(manager.invalidate(&key).is_ok());
    assert_eq!(manager.get_bytes(&key, 2), None);
    let stats = manager.get_cache_stats();
    assert_eq!((stats.sets, stats.hits, stats.misses), (1, 1, 1));
}

fn order(id: &str, side: Side, price: u64, quantity: u64, client: &str) -> Order {
    Order::new(id.to_string(), "BTC-KRW".to_string(), side, OrderType::Limit, price, quantity, client.to_string())
}

#[test]
fn test_memory_only_balance_check() {
    let engine = UltraFastMatchingEngine::new(vec!["BTC-KRW".to_string()]);
    assert_eq!(engine.get_balance("user1"), 50_000_000_000);
    assert_eq!(engine.get_balance("unknown_user"), 0);
}

#[test]
fn test_ultra_fast_execution() {
    let mut engine = UltraFastMatchingEngine::new(vec!["BTC-KRW".to_string()]);
    let sell = engine.ultra_fast_execution(order("order1", Side::Sell, 10000, 100, "user2")).unwrap();
    assert_eq!(sell.quantity, 0);
    let buy = engine.ultra_fast_execution(order("order2", Side::Buy, 10000, 100, "user1")).unwrap();
    assert_eq!(buy.price, 10000);
    assert_eq!(buy.quantity, 100);
    assert_eq!(engine.drain_persistence_queue(10).len(), 2);
}

#[test]
fn ultra_refuses_poor_users_and_unknown_symbols() {
    let mut engine = UltraFastMatchingEngine::new(vec!["BTC-KRW".to_string()]);
    let r = engine.ultra_fast_execution(order("o", Side::Buy, 10000, 100, "nobody"));
    assert_eq!(r.unwrap_err(), ExecutionError::InsufficientBalance);
    let mut o = order("o2", Side::Buy, 1, 1, "user1");
    o.symbol = "DOGE-KRW".to_string();
    assert_eq!(engine.ultra_fast_execution(o).unwrap_err(), ExecutionError::UnsupportedSymbol);
    assert_eq!(ExecutionError::InsufficientBalance.message(), "잔고 부족");
}

#[test]
fn exchanges_and_base_prices() {
    assert_eq!(default_exchanges().len(), 5);
    assert_eq!(ExchangeType::Upbit.to_string(), "Upbit");
    assert_eq!(base_price("BTC-KRW"), Ok(50_000_000));
    assert_eq!(base_price("XRP-KRW"), Ok(500));
    assert_eq!(base_price("DOGE"), Err("지원하지 않는 심볼: DOGE".to_string()));
}

#[test]
fn test_regulatory_reporting_manager_creation() {
    let manager = RegulatoryReportingManager::new();
    let stats = manager.get_reporting_stats();
    assert_eq!(stats.total_transactions, 0);
    assert_eq!(stats.total_suspicious_activities, 0);
    assert_eq!(stats.total_reports, 0);
    assert!(!stats.is_reporting);
}

/// The facts of a transaction as the reporting sees them, from its amounts and the
/// large-transaction threshold in force.
fn facts_of(id: &str, amount: f64, price: f64, total_value: f64, country: &str, threshold: f64) -> TransactionFacts {
    TransactionFacts {
        transaction_id: id.to_string(),
        timestamp: 1_700_000_000_000,
        large: total_value >= threshold,
        unusual: amount > 1000.0 && price < 100.0,
        user_country: country.to_string(),
    }
}

#[test]
fn test_transaction_addition() {
    let mut manager = RegulatoryReportingManager::new();
    let tx = facts_of("test_tx_1", 0.1, 50000000.0, 5000000.0, "KR", 10_000_000.0);
    let result = manager.add_transaction(&tx, serde_json::Value::Null, true, "", serde_json::Value::Null, true, 1);
    assert!(result.is_ok());
    assert_eq!(manager.get_reporting_stats().total_transactions, 1);
}

#[test]
fn test_large_transaction_detection() {
    let mut manager = RegulatoryReportingManager::new();
    let tx = facts_of("large_tx_1", 0.1, 50000000.0, 5000000.0, "KR", 1_000_000.0);
    let result = manager.add_transaction(&tx, serde_json::Value::Null, true, "", serde_json::Value::Null, true, 1);
    assert!(result.is_ok());
    let positions = manager.get_reports(None);
    assert!(!positions.is_empty());
    assert!(positions.iter().any(|&i| manager.report_at(i).report_type == ReportType::LargeTransaction));
}

#[test]
fn test_suspicious_activity_detection() {
    let mut manager = RegulatoryReportingManager::new();
    let tx = facts_of("suspicious_tx_1", 2000.0, 50.0, 100000.0, "XX", 10_000_000.0);
    let result = manager.add_transaction(&tx, serde_json::Value::Null, true, "a1", serde_json::Value::Null, true, 1);
    assert!(result.is_ok());
    assert!(manager.get_reporting_stats().total_suspicious_activities > 0);
}

#[test]
fn suspicion_from_risk_factors() {
    assert!(detect_suspicious_activity(false, false, "KR").is_none());
    assert!(detect_suspicious_activity(true, false, "KR").is_none());
    let s = detect_suspicious_activity(true, true, "KR").unwrap();
    assert_eq!(s.risk_tenths, 5);
    assert_eq!(s.severity, "medium");
    assert_eq!(s.evidence, vec!["Large transaction amount".to_string(), "Unusual trading pattern".to_string()]);
    let h = detect_suspicious_activity(true, true, "XX").unwrap();
    assert_eq!(h.risk_tenths, 9);
    assert_eq!(h.severity, "high");
}

#[test]
fn test_report_generation() {
    let mut manager = RegulatoryReportingManager::new();
    for i in 0..5 {
        let tx = facts_of(&format!("test_tx_{}", i), 0.1, 50000000.0, 5000000.0, "KR", 10_000_000.0);
        manager.add_transaction(&tx, serde_json::Value::Null, true, "", serde_json::Value::Null, true, 1).unwrap();
    }
    let positions = manager.get_reports(None);
    assert!(!positions.is_empty());
    assert!(positions.iter().any(|&i| manager.report_at(i).report_type == ReportType::TransactionReport));
}

#[test]
fn periodic_and_event_reports() {
    let mut manager = RegulatoryReportingManager::new();
    let r = generate_report(ReportType::TransactionReport, 100_000_000, serde_json::Value::Null);
    assert_eq!(r.report_id, "TransactionReport_13600000_100000000");
    assert_eq!(r.agency, RegulatoryAgency::FSC);
    assert_eq!(r.status, ReportStatus::Generated);
    manager.add_periodic_report(r);
    manager.add_event_report(large_transaction_report("tx1", 5, 6, serde_json::Value::Null));
    let stats = manager.get_reporting_stats();
    assert_eq!(stats.total_reports, 2);
    assert_eq!(stats.status_counts, vec![(ReportStatus::Generated, 2)]);
    assert_eq!(stats.agency_counts, vec![(RegulatoryAgency::FSC, 2)]);
    assert_eq!(manager.get_reports(Some(1)), vec![1]);
    assert_eq!(manager.get_reports_by_status(ReportStatus::Failed), Vec::<usize>::new());
}

#[test]
fn periodic_reports_skip_immediate_kinds() {
    let kinds = scheduled_report_types(&default_report_intervals());
    assert_eq!(kinds.len(), 5);
    assert!(!kinds.contains(&ReportType::LargeTransaction));
}

#[test]
fn default_dataset_and_users() {
    let d = FakeDataset::default();
    assert_eq!(d.market_data.len(), 3);
    assert_eq!(d.get_order_templates().len(), 8);
    assert_eq!(d.get_market_data("ETH-KRW").unwrap().base_price, 4_000_000);
    assert!(d.get_market_data("DOGE").is_none());
    let users = DataLoader::create_default_users();
    assert_eq!(users.len(), 3);
    assert_eq!(users[2].id, "test_user_001");
    assert_eq!(DataLoader::load_fake_users(None).len(), 3);
    assert_eq!(DataLoader::load_fake_users(Some(vec![])).len(), 0);
}

#[test]
fn initial_orders_are_numbered_across_books() {
    let books = vec![
        InitialBook { symbol: "BTC-KRW".to_string(), bids: vec![(100, 1), (99, 2)], asks: vec![(101, 3)] },
        InitialBook { symbol: "ETH-KRW".to_string(), bids: vec![], asks: vec![(10, 4)] },
    ];
    let orders = DataLoader::create_initial_orders(&books);
    let ids: Vec<&str> = orders.iter().map(|o| o.id.as_str()).collect();
    assert_eq!(ids, vec!["init_bid_1", "init_bid_2", "init_ask_3", "init_ask_4"]);
    assert_eq!(orders[3].symbol, "ETH-KRW");
    assert_eq!(orders[2].side, Side::Sell);
    assert_eq!(orders[1].quantity, 2);
    assert_eq!(orders[0].client_id, "market_maker");
}

fn record(id: &str) -> ExecutionRecord {
    ExecutionRecord {
        exec_id: id.to_string(),
        taker_order_id: "t".to_string(),
        maker_order_id: "m".to_string(),
        symbol: "BTC-KRW".to_string(),
        side: "Buy".to_string(),
        price: 1,
        quantity: 1,
        taker_fee: 0,
        maker_fee: 0,
        transaction_time: 0,
    }
}

#[test]
fn commit_batches_in_order() {
    let mut m = AsyncCommitManager::new().with_config(2, 5);
    m.enqueue(record("a"));
    m.enqueue(record("b"));
    m.enqueue(record("c"));
    let batch = m.take_batch();
    assert_eq!(batch.iter().map(|r| r.exec_id.as_str()).collect::<Vec<_>>(), vec!["a", "b"]);
    m.commit_batch_results(&vec![true, false]);
    let stats = m.get_stats();
    assert_eq!(stats, CommitStats { total_commits: 1, total_batches: 1, failed_commits: 1, queue_size: 1 });
    assert_eq!(stats.to_string(), "CommitStats { 총 커밋: 1, 총 배치: 1, 실패: 1, 큐 크기: 1 }");
}

#[test]
fn test_read_pool_round_robin() {
    let mut r = ReadPoolRotation::new(3);
    let picks: Vec<usize> = (0..4).map(|_| r.get_read_pool()).collect();
    assert_eq!(picks, vec![0, 1, 2, 0]);
    let status = get_pool_status(20, vec![10, 10, 10]);
    assert_eq!(status.total_connections, 50);
}

#[test]
fn execution_rows() {
    let e = ExecutionReport {
        execution_id: "e1".to_string(),
        order_id: "o1".to_string(),
        symbol: "BTC-KRW".to_string(),
        side: Side::Sell,
        price: 7,
        quantity: 3,
        remaining_quantity: 0,
        timestamp: 9,
        counterparty_id: "o2".to_string(),
        is_maker: false,
    };
    let rows = batch_insert_executions(&vec![e]);
    assert_eq!(rows[0].maker_order_id, "o2");
    assert_eq!(rows[0].side, "Sell");
    assert_eq!(rows[0].transaction_time, 9);
}

#[test]
fn decimal_rendering() {
    assert_eq!(decimal(0), "0");
    assert_eq!(decimal(1234567890), "1234567890");
    assert_eq!(decimal(u64::MAX), u64::MAX.to_string());
}

#[test]
fn order_submission_checks() {
    let mut req = OrderRequest {
        symbol: "BTC-KRW".to_string(),
        side: Side::Buy,
        order_type: OrderType::Limit,
        price: Some(100),
        quantity: 0,
        client_id: "c".to_string(),
    };
    let (code, e) = submit_order(&req).unwrap_err();
    assert_eq!((code, e.error.as_str()), (400, "INVALID_QUANTITY"));
    req.quantity = 5;
    req.price = None;
    assert_eq!(submit_order(&req).unwrap_err().1.error, "MISSING_PRICE");
    req.price = Some(0);
    assert_eq!(submit_order(&req).unwrap_err().1.message, "가격은 0보다 커야 합니다");
    req.price = Some(100);
    let (order, resp) = submit_order(&req).unwrap();
    assert_eq!(resp.order_id, order.id);
    assert_eq!(resp.status, "ACCEPTED");
    assert_eq!(order.remaining_quantity, 5);
    req.order_type = OrderType::Market;
    req.price = None;
    assert_eq!(submit_order(&req).unwrap().0.price, 0);
    let (code, e) = order_send_failed("closed");
    assert_eq!(code, 503);
    assert_eq!(e.message, "주문 전송 실패: closed");
}

#[test]
fn cancel_and_book_queries() {
    let mut engine = MatchingEngine::new(vec!["BTC-KRW".to_string()]);
    engine.handle_order(order("o1", Side::Buy, 100, 2, "c"));
    let book = get_orderbook(&engine, "BTC-KRW", None).unwrap();
    assert_eq!(book.orderbook.bids, vec![(100, 2)]);
    assert_eq!(get_orderbook(&engine, "ETH-KRW", Some(5)).unwrap_err().0, 404);
    let r = cancel_order(&mut engine, CancelOrderRequest { order_id: "o1".to_string() }).unwrap();
    assert_eq!(r.status, "CANCELLED");
    assert!(get_orderbook(&engine, "BTC-KRW", None).unwrap().orderbook.bids.is_empty());
    let e = cancel_order(&mut engine, CancelOrderRequest { order_id: "o1".to_string() }).unwrap_err();
    assert_eq!((e.0, e.1.error.as_str()), (404, "ORDER_NOT_FOUND"));
    let publisher = MarketDataPublisher::new(10);
    assert!(get_executions(&publisher, "BTC-KRW", None).executions.is_empty());
    let c = get_candles(&publisher, "BTC-KRW".to_string(), "1m".to_string(), Some(3));
    assert!(c.candles.is_empty());
    assert_eq!(c.interval, "1m");
}

fn facts(id: &str, large: bool, unusual: bool, country: &str) -> TransactionFacts {
    TransactionFacts {
        transaction_id: id.to_string(),
        timestamp: 7,
        large,
        unusual,
        user_country: country.to_string(),
    }
}

#[test]
fn transactions_make_reports() {
    let null = serde_json::Value::Null;
    let mut m = RegulatoryReportingManager::new();
    assert!(m.add_transaction(&facts("t1", true, false, "KR"), null.clone(), true, "a1", null.clone(), true, 9).is_ok());
    let stats = m.get_reporting_stats();
    assert_eq!((stats.total_reports, stats.total_transactions, stats.total_suspicious_activities), (2, 1, 0));
    assert!(m.add_transaction(&facts("t2", true, false, "XX"), null.clone(), true, "a2", null.clone(), true, 9).is_ok());
    let stats = m.get_reporting_stats();
    assert_eq!((stats.total_reports, stats.total_transactions, stats.total_suspicious_activities), (4, 2, 1));
    assert!(m.add_transaction(&facts("t3", true, true, "ZZ"), null.clone(), true, "a3", null.clone(), true, 9).is_ok());
    let stats = m.get_reporting_stats();
    assert_eq!((stats.total_reports, stats.total_transactions, stats.total_suspicious_activities), (7, 3, 2));
    assert_eq!(stats.agency_counts, vec![(RegulatoryAgency::FSC, 6), (RegulatoryAgency::AML, 1)]);
    assert_eq!(m.report_at(6).report_id, "transaction_t3");
    assert!(m.add_transaction(&facts("t4", false, false, "KR"), null.clone(), false, "a4", null.clone(), false, 9).is_ok());
    assert_eq!(m.get_reporting_stats().total_transactions, 4);
    assert_eq!(m.get_reporting_stats().total_reports, 8);
}

#[test]
fn failed_submissions_stop_the_addition() {
    let null = serde_json::Value::Null;
    let mut m = RegulatoryReportingManager::new();
    let e = m.add_transaction(&facts("t1", true, true, "XX"), null.clone(), false, "a1", null.clone(), true, 9);
    assert_eq!(e, Err("Submission failed due to network error".to_string()));
    let stats = m.get_reporting_stats();
    assert_eq!((stats.total_reports, stats.total_transactions, stats.total_suspicious_activities), (1, 0, 0));
    let e = m.add_transaction(&facts("t2", true, true, "XX"), null.clone(), true, "a2", null.clone(), false, 9);
    assert!(e.is_err());
    let stats = m.get_reporting_stats();
    assert_eq!((stats.total_reports, stats.total_transactions, stats.total_suspicious_activities), (3, 0, 0));
    assert!(m.add_suspicious_activity("a3", 7, 1, null.clone(), false, 2).is_ok());
    assert!(m.add_suspicious_activity("a4", 8, 1, null, false, 2).is_err());
    let stats = m.get_reporting_stats();
    assert_eq!((stats.total_reports, stats.total_suspicious_activities), (4, 1));
}

#[test]
fn random_orders_stay_in_their_template() {
    let limit = OrderTemplate::new("BTC-KRW", "Buy", "Limit", (99_800_000, 100_000_000), (1, 5), 1000);
    for _ in 0..50 {
        let o = create_random_order(&limit);
        assert_eq!((o.symbol.as_str(), o.side.as_str(), o.order_type.as_str()), ("BTC-KRW", "Buy", "Limit"));
        assert!((99_800_000..=100_000_000).contains(&o.price));
        assert!((1..=5).contains(&o.quantity));
        let n: u64 = o.client_id.strip_prefix("simulator_").unwrap().parse().unwrap();
        assert!((1..=10).contains(&n));
    }
    let market = OrderTemplate::new("ETH-KRW", "Sell", "Market", (0, 0), (5, 15), 20000);
    let o = create_random_order(&market);
    assert_eq!(o.price, 0);
    assert!((5..=15).contains(&o.quantity));
}

#[test]
fn statistics_of_an_unknown_symbol_are_empty() {
    let publisher = MarketDataPublisher::new(10);
    let s = get_statistics(&publisher, "BTC-KRW".to_string());
    assert_eq!(s.symbol, "BTC-KRW");
    assert_eq!((s.last_price, s.volume_24h, s.open_price_24h), (None, 0, None));
    assert!(s.timestamp > 1_600_000_000);
}

#[test]
fn cache_readers_by_kind() {
    let mut manager = MDPCacheManager::new(CacheConfig::default());
    manager.cache_candlestick("BTC-KRW", "5m", vec![7], 10);
    manager.cache_statistics("ETH-KRW", vec![8, 9], 10);
    manager.cache_all_statistics(vec![1], 10);
    assert_eq!(manager.get_candlestick("BTC-KRW", "5m", 11), Some(vec![7]));
    assert_eq!(manager.get_candlestick("BTC-KRW", "1m", 11), None);
    assert_eq!(manager.get_statistics("ETH-KRW", 11), Some(vec![8, 9]));
    assert_eq!(manager.get_all_statistics(11), Some(vec![1]));
    let stats = manager.get_cache_stats();
    assert_eq!((stats.hits, stats.misses), (3, 1));
}

#[test]
fn consumer_hands_out_all_candles_and_statistics() {
    let mut consumer = MDPConsumer::new(MDPConsumerConfig::default());
    let now: u64 = 1_700_000_040_000;
    consumer.add_trades(vec![TradeData { symbol: "BTC-KRW".to_string(), price: 100, quantity: 1, timestamp: now,
        side: "buy".to_string(), trade_id: "t".to_string() }]);
    assert!(consumer.calculate_candlesticks(now).is_ok());
    consumer.calculate_market_statistics(now);
    let candles = consumer.get_all_candlestick_data();
    assert!(!candles.is_empty());
    assert!(candles.iter().all(|c| c.symbol == "BTC-KRW"));
    let stats = consumer.get_all_market_statistics();
    assert_eq!(stats.len(), 1);
    assert_eq!(stats[0].symbol, "BTC-KRW");
}
