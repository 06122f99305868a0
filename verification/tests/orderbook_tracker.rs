use xtrader::api::models::OrderBookChangeType;
use xtrader::model::OrderBookSnapshot as EngineOrderBookSnapshot;
use xtrader::orderbook_tracker::OrderBookTracker;

fn create_test_snapshot(bids: Vec<(u64, u64)>, asks: Vec<(u64, u64)>) -> EngineOrderBookSnapshot {
    EngineOrderBookSnapshot { symbol: "BTC-KRW".to_string(), bids, asks }
}

#[test]
fn test_delta_generation() {
    let mut tracker = OrderBookTracker::new(1, 1000);
    let initial_snapshot = create_test_snapshot(vec![(50000, 100), (49900, 200)], vec![(50100, 150), (50200, 300)]);
    let changed_snapshot = create_test_snapshot(
        vec![(50000, 150), (49900, 200), (49800, 100)],
        vec![(50100, 150), (50300, 200)],
    );

    let delta1 = tracker.analyze_changes("BTC-KRW", &initial_snapshot);
    assert!(delta1.is_none());

    let delta2 = tracker.analyze_changes("BTC-KRW", &changed_snapshot);
    assert!(delta2.is_some());

    let delta = delta2.unwrap();
    assert_eq!(delta.symbol, "BTC-KRW");
    assert_eq!(delta.sequence, 1);

    assert_eq!(delta.bid_changes.len(), 2);
    assert!(delta.bid_changes.iter().any(|c| c.price == 50000 && c.quantity == 150));
    assert!(delta.bid_changes.iter().any(|c| c.price == 49800 && c.quantity == 100));

    assert_eq!(delta.ask_changes.len(), 2);
    assert!(delta.ask_changes.iter().any(|c| c.price == 50200 && c.change_type == OrderBookChangeType::Remove));
    assert!(delta.ask_changes.iter().any(|c| c.price == 50300 && c.change_type == OrderBookChangeType::Add));
}

#[test]
fn test_snapshot_generation() {
    let mut tracker = OrderBookTracker::new(1, 1000);
    let snapshot = create_test_snapshot(vec![(50000, 100), (49900, 200)], vec![(50100, 150), (50200, 300)]);
    let orderbook_snapshot = tracker.create_snapshot("BTC-KRW", &snapshot);
    assert_eq!(orderbook_snapshot.symbol, "BTC-KRW");
    assert_eq!(orderbook_snapshot.bids.len(), 2);
    assert_eq!(orderbook_snapshot.asks.len(), 2);
    assert_eq!(orderbook_snapshot.sequence, 1);
}

#[test]
fn test_snapshot_interval() {
    let mut tracker = OrderBookTracker::new(1, 1000);
    assert!(tracker.should_send_snapshot("BTC-KRW"));
    assert!(!tracker.should_send_snapshot("BTC-KRW"));
}
