use std::collections::VecDeque;
use xtrader::engine::MatchingEngine;
use xtrader::model::{ExecutionReport, Order, OrderType, Side};

fn create_test_order(id: &str, side: Side, order_type: OrderType, price: u64, quantity: u64) -> Order {
    Order {
        id: id.to_string(),
        symbol: "BTC-KRW".to_string(),
        side,
        order_type,
        price,
        quantity,
        remaining_quantity: quantity,
        client_id: "".to_string(),
        timestamp: 0,
        is_cancel: false,
        target_order_id: None,
    }
}

fn create_cancel_order(id: &str, target_id: &str) -> Order {
    Order {
        id: id.to_string(),
        symbol: "BTC-KRW".to_string(),
        side: Side::Buy,
        order_type: OrderType::Limit,
        price: 0,
        quantity: 0,
        remaining_quantity: 0,
        client_id: "".to_string(),
        timestamp: 0,
        is_cancel: true,
        target_order_id: Some(target_id.to_string()),
    }
}

/// The reports of every order processed so far, oldest first.
struct Reports(VecDeque<ExecutionReport>);

impl Reports {
    fn new() -> Self {
        Reports(VecDeque::new())
    }
    fn process(&mut self, engine: &mut MatchingEngine, order: Order) {
        self.0.extend(engine.process_order(order));
    }
    fn try_recv(&mut self) -> Option<ExecutionReport> {
        self.0.pop_front()
    }
}

#[test]
fn test_matching_engine_initialization() {
    let symbols = vec!["BTC-KRW".to_string(), "ETH-KRW".to_string()];
    let engine = MatchingEngine::new(symbols);
    assert_eq!(engine.get_order_books().len(), 2);
    assert!(engine.get_order_books().iter().any(|b| b.symbol == "BTC-KRW"));
    assert!(engine.get_order_books().iter().any(|b| b.symbol == "ETH-KRW"));
    assert!(engine.has_no_stored_orders());
}

#[test]
fn test_limit_order_no_match() {
    let mut engine = MatchingEngine::new(vec!["BTC-KRW".to_string()]);
    let mut rx = Reports::new();
    rx.process(&mut engine, create_test_order("order1", Side::Buy, OrderType::Limit, 10000, 100));
    rx.process(&mut engine, create_test_order("order2", Side::Sell, OrderType::Limit, 11000, 100));
    assert!(rx.try_recv().is_none());
}

#[test]
fn test_limit_order_full_match() {
    let mut engine = MatchingEngine::new(vec!["BTC-KRW".to_string()]);
    let mut rx = Reports::new();
    rx.process(&mut engine, create_test_order("order1", Side::Sell, OrderType::Limit, 10000, 100));
    rx.process(&mut engine, create_test_order("order2", Side::Buy, OrderType::Limit, 10000, 100));

    let taker_report = rx.try_recv().unwrap();
    let maker_report = rx.try_recv().unwrap();

    assert_eq!(taker_report.order_id, "order2");
    assert_eq!(taker_report.side, Side::Buy);
    assert_eq!(taker_report.price, 10000);
    assert_eq!(taker_report.quantity, 100);
    assert_eq!(taker_report.remaining_quantity, 0);
    assert_eq!(taker_report.is_maker, false);
    assert_eq!(taker_report.counterparty_id, "order1");

    assert_eq!(maker_report.order_id, "order1");
    assert_eq!(maker_report.side, Side::Sell);
    assert_eq!(maker_report.price, 10000);
    assert_eq!(maker_report.quantity, 100);
    assert_eq!(maker_report.remaining_quantity, 0);
    assert_eq!(maker_report.is_maker, true);
    assert_eq!(maker_report.counterparty_id, "order2");

    assert!(rx.try_recv().is_none());
}

#[test]
fn test_limit_order_partial_match() {
    let mut engine = MatchingEngine::new(vec!["BTC-KRW".to_string()]);
    let mut rx = Reports::new();
    rx.process(&mut engine, create_test_order("order1", Side::Sell, OrderType::Limit, 10000, 100));
    rx.process(&mut engine, create_test_order("order2", Side::Buy, OrderType::Limit, 10000, 60));

    let taker_report = rx.try_recv().unwrap();
    let maker_report = rx.try_recv().unwrap();

    assert_eq!(taker_report.order_id, "order2");
    assert_eq!(taker_report.quantity, 60);
    assert_eq!(taker_report.remaining_quantity, 0);

    assert_eq!(maker_report.order_id, "order1");
    assert_eq!(maker_report.quantity, 60);
    assert_eq!(maker_report.remaining_quantity, 40);

    assert!(rx.try_recv().is_none());
}

#[test]
fn test_market_order_matching() {
    let mut engine = MatchingEngine::new(vec!["BTC-KRW".to_string()]);
    let mut rx = Reports::new();
    rx.process(&mut engine, create_test_order("order1", Side::Sell, OrderType::Limit, 10000, 50));
    rx.process(&mut engine, create_test_order("order2", Side::Sell, OrderType::Limit, 10100, 30));
    rx.process(&mut engine, create_test_order("order3", Side::Sell, OrderType::Limit, 10200, 20));
    rx.process(&mut engine, create_test_order("market1", Side::Buy, OrderType::Market, 0, 80));

    let taker_report1 = rx.try_recv().unwrap();
    let maker_report1 = rx.try_recv().unwrap();
    let taker_report2 = rx.try_recv().unwrap();
    let maker_report2 = rx.try_recv().unwrap();

    assert_eq!(taker_report1.order_id, "market1");
    assert_eq!(taker_report1.price, 10000);
    assert_eq!(taker_report1.quantity, 50);
    assert_eq!(taker_report1.remaining_quantity, 30);

    assert_eq!(maker_report1.order_id, "order1");
    assert_eq!(maker_report1.quantity, 50);
    assert_eq!(maker_report1.remaining_quantity, 0);

    assert_eq!(taker_report2.order_id, "market1");
    assert_eq!(taker_report2.price, 10100);
    assert_eq!(taker_report2.quantity, 30);
    assert_eq!(taker_report2.remaining_quantity, 0);

    assert_eq!(maker_report2.order_id, "order2");
    assert_eq!(maker_report2.quantity, 30);
    assert_eq!(maker_report2.remaining_quantity, 0);

    assert!(rx.try_recv().is_none());
}

#[test]
fn test_cancel_order() {
    let mut engine = MatchingEngine::new(vec!["BTC-KRW".to_string()]);
    let mut rx = Reports::new();
    rx.process(&mut engine, create_test_order("order1", Side::Sell, OrderType::Limit, 10000, 100));

    let cancel_order = create_cancel_order("cancel1", "order1");
    if let Some(r) = engine.handle_cancel_order(&cancel_order) {
        rx.0.push_back(r);
    }

    let cancel_report = rx.try_recv().unwrap();
    assert_eq!(cancel_report.order_id, "order1");
    assert_eq!(cancel_report.price, 10000);
    assert_eq!(cancel_report.quantity, 0);
    assert_eq!(cancel_report.remaining_quantity, 0);
    assert_eq!(cancel_report.counterparty_id, "system");

    assert!(rx.try_recv().is_none());
}

#[test]
fn test_multiple_orders_at_same_price_level() {
    let mut engine = MatchingEngine::new(vec!["BTC-KRW".to_string()]);
    let mut rx = Reports::new();
    rx.process(&mut engine, create_test_order("order1", Side::Sell, OrderType::Limit, 10000, 40));
    rx.process(&mut engine, create_test_order("order2", Side::Sell, OrderType::Limit, 10000, 60));
    rx.process(&mut engine, create_test_order("buy1", Side::Buy, OrderType::Limit, 10000, 50));

    let taker_report1 = rx.try_recv().unwrap();
    let maker_report1 = rx.try_recv().unwrap();
    let taker_report2 = rx.try_recv().unwrap();
    let maker_report2 = rx.try_recv().unwrap();

    assert_eq!(taker_report1.order_id, "buy1");
    assert_eq!(taker_report1.quantity, 40);
    assert_eq!(taker_report1.remaining_quantity, 10);

    assert_eq!(maker_report1.order_id, "order1");
    assert_eq!(maker_report1.quantity, 40);
    assert_eq!(maker_report1.remaining_quantity, 0);

    assert_eq!(taker_report2.order_id, "buy1");
    assert_eq!(taker_report2.quantity, 10);
    assert_eq!(taker_report2.remaining_quantity, 0);

    assert_eq!(maker_report2.order_id, "order2");
    assert_eq!(maker_report2.quantity, 10);
    assert_eq!(maker_report2.remaining_quantity, 50);
}

#[test]
fn test_order_book_snapshot() {
    let mut engine = MatchingEngine::new(vec!["BTC-KRW".to_string()]);
    // none of these orders can trade with another, so each one rests as it is
    engine.process_order(create_test_order("buy1", Side::Buy, OrderType::Limit, 9000, 100));
    engine.process_order(create_test_order("buy2", Side::Buy, OrderType::Limit, 9100, 200));
    engine.process_order(create_test_order("sell1", Side::Sell, OrderType::Limit, 9900, 300));
    engine.process_order(create_test_order("sell2", Side::Sell, OrderType::Limit, 10000, 400));

    let snapshot = engine.get_order_book_snapshot("BTC-KRW", 5).unwrap();

    assert_eq!(snapshot.symbol, "BTC-KRW");
    assert_eq!(snapshot.bids.len(), 2);
    assert_eq!(snapshot.asks.len(), 2);

    assert_eq!(snapshot.bids[0].0, 9100);
    assert_eq!(snapshot.bids[0].1, 200);
    assert_eq!(snapshot.bids[1].0, 9000);
    assert_eq!(snapshot.bids[1].1, 100);

    assert_eq!(snapshot.asks[0].0, 9900);
    assert_eq!(snapshot.asks[0].1, 300);
    assert_eq!(snapshot.asks[1].0, 10000);
    assert_eq!(snapshot.asks[1].1, 400);
}

#[test]
fn test_sequential_matching() {
    let mut engine = MatchingEngine::new(vec!["BTC-KRW".to_string()]);
    let mut rx = Reports::new();
    rx.process(&mut engine, create_test_order("sell1", Side::Sell, OrderType::Limit, 10000, 10));
    rx.process(&mut engine, create_test_order("sell2", Side::Sell, OrderType::Limit, 10000, 50));
    rx.process(&mut engine, create_test_order("sell3", Side::Sell, OrderType::Limit, 10000, 40));
    rx.process(&mut engine, create_test_order("buy1", Side::Buy, OrderType::Limit, 10000, 100));

    let taker_report1 = rx.try_recv().unwrap();
    let maker_report1 = rx.try_recv().unwrap();
    assert_eq!(taker_report1.order_id, "buy1");
    assert_eq!(taker_report1.quantity, 10);
    assert_eq!(taker_report1.remaining_quantity, 90);
    assert_eq!(maker_report1.order_id, "sell1");
    assert_eq!(maker_report1.quantity, 10);
    assert_eq!(maker_report1.remaining_quantity, 0);

    let taker_report2 = rx.try_recv().unwrap();
    let maker_report2 = rx.try_recv().unwrap();
    assert_eq!(taker_report2.order_id, "buy1");
    assert_eq!(taker_report2.quantity, 50);
    assert_eq!(taker_report2.remaining_quantity, 40);
    assert_eq!(maker_report2.order_id, "sell2");
    assert_eq!(maker_report2.quantity, 50);
    assert_eq!(maker_report2.remaining_quantity, 0);

    let taker_report3 = rx.try_recv().unwrap();
    let maker_report3 = rx.try_recv().unwrap();
    assert_eq!(taker_report3.order_id, "buy1");
    assert_eq!(taker_report3.quantity, 40);
    assert_eq!(taker_report3.remaining_quantity, 0);
    assert_eq!(maker_report3.order_id, "sell3");
    assert_eq!(maker_report3.quantity, 40);
    assert_eq!(maker_report3.remaining_quantity, 0);

    let snapshot = engine.get_order_book_snapshot("BTC-KRW", 5).unwrap();
    assert!(snapshot.asks.is_empty());
}

#[test]
fn test_price_time_priority() {
    let mut engine = MatchingEngine::new(vec!["BTC-KRW".to_string()]);
    let mut rx = Reports::new();
    rx.process(&mut engine, create_test_order("sell1", Side::Sell, OrderType::Limit, 10100, 30));
    rx.process(&mut engine, create_test_order("sell2", Side::Sell, OrderType::Limit, 10000, 20));
    rx.process(&mut engine, create_test_order("sell3", Side::Sell, OrderType::Limit, 10200, 40));
    rx.process(&mut engine, create_test_order("buy1", Side::Buy, OrderType::Market, 0, 30));

    let taker_report1 = rx.try_recv().unwrap();
    let maker_report1 = rx.try_recv().unwrap();
    assert_eq!(taker_report1.order_id, "buy1");
    assert_eq!(taker_report1.price, 10000);
    assert_eq!(taker_report1.quantity, 20);
    assert_eq!(maker_report1.order_id, "sell2");
    assert_eq!(maker_report1.quantity, 20);
    assert_eq!(maker_report1.remaining_quantity, 0);

    let taker_report2 = rx.try_recv().unwrap();
    let maker_report2 = rx.try_recv().unwrap();
    assert_eq!(taker_report2.order_id, "buy1");
    assert_eq!(taker_report2.price, 10100);
    assert_eq!(taker_report2.quantity, 10);
    assert_eq!(taker_report2.remaining_quantity, 0);
    assert_eq!(maker_report2.order_id, "sell1");
    assert_eq!(maker_report2.quantity, 10);
    assert_eq!(maker_report2.remaining_quantity, 20);
}

#[test]
fn executed_makers_leave_the_book_index() {
    let mut engine = MatchingEngine::new(vec!["BTC-KRW".to_string()]);
    let mut rx = Reports::new();
    rx.process(&mut engine, create_test_order("m1", Side::Sell, OrderType::Limit, 10000, 100));
    rx.process(&mut engine, create_test_order("m2", Side::Sell, OrderType::Limit, 10000, 100));
    rx.process(&mut engine, create_test_order("t1", Side::Buy, OrderType::Limit, 10000, 150));
    let book = &engine.get_order_books()[0];
    assert!(!book.orders.contains_key("m1"));
    assert_eq!(book.orders.get("m2"), Some(&(Side::Sell, 10000)));
    assert!(!book.orders.contains_key("t1"));
    rx.process(&mut engine, create_test_order("t2", Side::Buy, OrderType::Limit, 9000, 10));
    assert_eq!(engine.get_order_books()[0].orders.get("t2"), Some(&(Side::Buy, 9000)));
}

#[test]
fn order_new_at_stamps_the_given_time() {
    let o = Order::new_at("o".to_string(), "BTC-KRW".to_string(), Side::Sell, OrderType::Market, 10, 3,
        "c".to_string(), 1234);
    assert_eq!(o.timestamp, 1234);
    assert_eq!(o.remaining_quantity, 3);
    assert!(!o.is_cancel);
    assert!(o.target_order_id.is_none());
}
