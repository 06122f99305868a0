use xtrader::model::{Order, OrderType, Side};
use xtrader::order_book::{OrderBook, PriceLevel};

fn create_test_order(side: Side, price: u64, quantity: u64) -> Order {
    Order {
        id: uuid::Uuid::new_v4().to_string(),
        symbol: "BTC-KRW".to_string(),
        side,
        order_type: OrderType::Limit,
        price,
        quantity,
        remaining_quantity: quantity,
        client_id: "".to_string(),
        timestamp: 0,
        is_cancel: false,
        target_order_id: None,
    }
}

#[test]
fn test_price_level_add_order() {
    let mut price_level = PriceLevel::new();
    let order = create_test_order(Side::Buy, 1000, 100);
    let _order_id = order.id.clone();
    price_level.add_order(order);
    assert_eq!(price_level.total_volume, 100);
    assert_eq!(price_level.len(), 1);
    let order2 = create_test_order(Side::Buy, 1000, 200);
    price_level.add_order(order2);
    assert_eq!(price_level.total_volume, 300);
    assert_eq!(price_level.len(), 2);
}

#[test]
fn test_price_level_remove_order() {
    let mut price_level = PriceLevel::new();
    let order = create_test_order(Side::Buy, 1000, 100);
    let order_id = order.id.clone();
    price_level.add_order(order);
    let removed = price_level.remove_order(&order_id);
    assert!(removed.is_some());
    assert_eq!(price_level.total_volume, 0);
    assert_eq!(price_level.len(), 0);
    assert!(price_level.is_empty());
}

#[test]
fn level_removal_by_shared_id_takes_the_latest() {
    let mut price_level = PriceLevel::new();
    let mut first = create_test_order(Side::Buy, 1000, 100);
    first.id = "dup".to_string();
    let mut second = create_test_order(Side::Buy, 1000, 30);
    second.id = "dup".to_string();
    price_level.add_order(first);
    price_level.add_order(second);
    let removed = price_level.remove_order("dup").unwrap();
    assert_eq!(removed.remaining_quantity, 30);
    assert_eq!(price_level.total_volume, 100);
    assert_eq!(price_level.len(), 1);
    assert_eq!(price_level.orders[0].remaining_quantity, 100);
    // the id was forgotten with the order taken out: the earlier order stays
    assert!(price_level.remove_order("dup").is_none());
    assert_eq!(price_level.len(), 1);
}

#[test]
fn level_forgets_the_id_of_an_order_executed_in_full() {
    let mut price_level = PriceLevel::new();
    let mut first = create_test_order(Side::Sell, 1000, 10);
    first.id = "a".to_string();
    let mut second = create_test_order(Side::Sell, 1000, 20);
    second.id = "b".to_string();
    price_level.add_order(first);
    price_level.add_order(second);
    assert!(price_level.order_map.contains_key("a"));
    price_level.match_partial(10);
    assert!(!price_level.order_map.contains_key("a"));
    assert!(price_level.remove_order("a").is_none());
    assert_eq!(price_level.remove_order("b").unwrap().remaining_quantity, 20);
}

#[test]
fn test_price_level_match_partial() {
    let mut price_level = PriceLevel::new();
    let order = create_test_order(Side::Buy, 1000, 100);
    let order_id = order.id.clone();
    price_level.add_order(order);

    let result = price_level.match_partial(40);
    assert!(result.is_some());
    let (matched_id, matched_order, matched_qty) = result.unwrap();
    assert_eq!(matched_id, order_id);
    assert_eq!(matched_qty, 40);
    assert_eq!(matched_order.remaining_quantity, 60);
    assert_eq!(price_level.total_volume, 60);
    assert_eq!(price_level.len(), 1);

    let result = price_level.match_partial(60);
    assert!(result.is_some());
    let (matched_id, matched_order, matched_qty) = result.unwrap();
    assert_eq!(matched_id, order_id);
    assert_eq!(matched_qty, 60);
    assert_eq!(matched_order.remaining_quantity, 0);
    assert_eq!(price_level.total_volume, 0);
    assert_eq!(price_level.len(), 0);
    assert!(price_level.is_empty());
}

#[test]
fn test_order_book_add_orders() {
    let mut order_book = OrderBook::new("BTC-KRW".to_string());
    let buy_order = create_test_order(Side::Buy, 9000, 100);
    let _buy_id = buy_order.id.clone();
    order_book.add_order(buy_order);
    let sell_order = create_test_order(Side::Sell, 10000, 200);
    let _sell_id = sell_order.id.clone();
    order_book.add_order(sell_order);

    assert_eq!(order_book.bid_count(), 1);
    assert_eq!(order_book.ask_count(), 1);
    assert_eq!(order_book.order_count(), 2);

    let (best_bid, _) = order_book.get_best_bid().unwrap();
    let (best_ask, _) = order_book.get_best_ask().unwrap();
    assert_eq!(best_bid, 9000);
    assert_eq!(best_ask, 10000);
}

#[test]
fn test_order_book_cancel_order() {
    let mut order_book = OrderBook::new("BTC-KRW".to_string());
    let buy_order = create_test_order(Side::Buy, 9000, 100);
    let buy_id = buy_order.id.clone();
    order_book.add_order(buy_order);
    let canceled = order_book.cancel_order(&buy_id);
    assert!(canceled.is_some());
    assert_eq!(order_book.bid_count(), 0);
    assert!(order_book.bids.is_empty());
}

#[test]
fn test_order_book_multiple_price_levels() {
    let mut order_book = OrderBook::new("BTC-KRW".to_string());
    order_book.add_order(create_test_order(Side::Buy, 9000, 100));
    order_book.add_order(create_test_order(Side::Buy, 9100, 200));
    order_book.add_order(create_test_order(Side::Buy, 8900, 300));
    order_book.add_order(create_test_order(Side::Sell, 10000, 100));
    order_book.add_order(create_test_order(Side::Sell, 9900, 200));
    order_book.add_order(create_test_order(Side::Sell, 10100, 300));

    assert_eq!(order_book.bid_count(), 3);
    assert_eq!(order_book.ask_count(), 3);

    let (best_bid, _) = order_book.get_best_bid().unwrap();
    let (best_ask, _) = order_book.get_best_ask().unwrap();
    assert_eq!(best_bid, 9100);
    assert_eq!(best_ask, 9900);

    let snapshot = order_book.get_order_book_snapshot(10);
    assert_eq!(snapshot.bids.len(), 3);
    assert_eq!(snapshot.asks.len(), 3);
    assert_eq!(snapshot.bids[0].0, 9100);
    assert_eq!(snapshot.bids[1].0, 9000);
    assert_eq!(snapshot.bids[2].0, 8900);
    assert_eq!(snapshot.asks[0].0, 9900);
    assert_eq!(snapshot.asks[1].0, 10000);
    assert_eq!(snapshot.asks[2].0, 10100);
}

#[test]
fn test_same_price_level() {
    let mut order_book = OrderBook::new("BTC-KRW".to_string());
    let buy_order1 = create_test_order(Side::Buy, 9000, 100);
    let buy_id1 = buy_order1.id.clone();
    order_book.add_order(buy_order1);
    let buy_order2 = create_test_order(Side::Buy, 9000, 200);
    order_book.add_order(buy_order2);

    assert_eq!(order_book.bid_count(), 2);

    let price_level = order_book.get_bid_price_level(9000).unwrap();
    assert_eq!(price_level.total_volume, 300);
    assert_eq!(price_level.len(), 2);

    let canceled = order_book.cancel_order(&buy_id1);
    assert!(canceled.is_some());

    assert!(!order_book.bids.is_empty());
    let price_level = order_book.get_bid_price_level(9000).unwrap();
    assert_eq!(price_level.total_volume, 200);
    assert_eq!(price_level.len(), 1);
}

#[test]
fn book_index_tracks_added_and_cancelled_orders() {
    let mut order_book = OrderBook::new("BTC-KRW".to_string());
    let order = create_test_order(Side::Sell, 10000, 5);
    let id = order.id.clone();
    order_book.add_order(order);
    assert_eq!(order_book.orders.get(&id), Some(&(Side::Sell, 10000)));
    assert!(order_book.cancel_order(&id).is_some());
    assert!(!order_book.orders.contains_key(&id));
    assert!(order_book.cancel_order(&id).is_none());
}

#[test]
fn book_cancel_of_shared_id_goes_by_the_index() {
    let mut order_book = OrderBook::new("BTC-KRW".to_string());
    let mut first = create_test_order(Side::Buy, 9000, 10);
    first.id = "dup".to_string();
    let mut second = create_test_order(Side::Buy, 9100, 20);
    second.id = "dup".to_string();
    order_book.add_order(first);
    order_book.add_order(second);
    let canceled = order_book.cancel_order("dup").unwrap();
    assert_eq!(canceled.price, 9100);
    assert_eq!(order_book.bid_count(), 1);
    assert_eq!(order_book.get_best_bid().unwrap().0, 9000);
    assert!(order_book.cancel_order("dup").is_none());
    assert_eq!(order_book.bid_count(), 1);
}
