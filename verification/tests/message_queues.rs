use xtrader::model::{ExecutionReport, Side};
use xtrader::mq::kafka_consumer::{create_mock_message, is_large_trade, is_whale_trade, KafkaConsumerConfig,
    KafkaConsumerWorker};
use xtrader::mq::kafka_producer::{KafkaError, KafkaProducer, MarketDataMessage};
use xtrader::mq::rabbitmq_consumer::{DeadLetterQueueConsumer, LoadBalancerConsumer, RabbitMQConsumerConfig,
    RabbitMQConsumerWorker, WebSocketServerConsumer};
use xtrader::mq::rabbitmq_producer::{get_priority_for_message_type, RabbitMQError, RabbitMQProducer,
    WebSocketMessageKind, WebSocketNotificationMessage};
use xtrader::mq::redis_streams::{ConsumerConfig, ExecutionMessage};
use xtrader::routing::RoutingPatterns;

fn create_test_execution() -> ExecutionReport {
    ExecutionReport {
        execution_id: "exec_001".to_string(),
        order_id: "order_001".to_string(),
        symbol: "BTC-KRW".to_string(),
        side: Side::Buy,
        price: 50000,
        quantity: 100,
        remaining_quantity: 0,
        timestamp: 1234567890,
        counterparty_id: "order_002".to_string(),
        is_maker: true,
    }
}

fn kafka_config() -> KafkaConsumerConfig {
    KafkaConsumerConfig {
        kafka_brokers: vec!["localhost:9092".to_string()],
        topic_name: "test-market-data".to_string(),
        consumer_group: "test-group".to_string(),
        worker_id: "test-worker-1".to_string(),
        batch_size: 100,
        processing_interval_ms: 1000,
    }
}

fn rabbit_config(queue: &str, worker: &str, patterns: Vec<String>) -> RabbitMQConsumerConfig {
    RabbitMQConsumerConfig {
        rabbitmq_url: "amqp://localhost:5672".to_string(),
        exchange_name: "websocket_notifications".to_string(),
        queue_name: queue.to_string(),
        routing_patterns: patterns,
        worker_id: worker.to_string(),
        batch_size: 100,
        processing_interval_ms: 1000,
    }
}

#[test]
fn test_market_data_message_conversion() {
    let execution = create_test_execution();
    let message = MarketDataMessage::from_report(&execution);
    assert_eq!(message.execution_id, "exec_001");
    assert_eq!(message.symbol, "BTC-KRW");
    assert_eq!(message.side, "Buy");
    assert_eq!(message.price, 50000);
    assert_eq!(message.quantity, 100);
    assert_eq!(message.message_type, "execution");
}

#[test]
fn test_kafka_producer_mock() {
    let mut producer = KafkaProducer::new(&vec!["localhost:9092".to_string()], "test-topic").unwrap();
    let execution = create_test_execution();
    let result = producer.publish_execution(&execution);
    assert!(result.is_ok());
    let stats = producer.get_producer_stats().unwrap();
    assert_eq!(stats.messages_sent, 1);
    assert_eq!(stats.topic_name, "test-topic");
}

#[test]
fn kafka_producer_batches_and_updates() {
    let mut producer = KafkaProducer::new(&vec![], "t").unwrap();
    assert_eq!(producer.publish_executions_batch(&vec![]).unwrap(), 0);
    let batch = vec![create_test_execution(), create_test_execution(), create_test_execution()];
    assert_eq!(producer.publish_executions_batch(&batch).unwrap(), 3);
    producer.publish_market_statistics("BTC-KRW").unwrap();
    assert_eq!(producer.get_producer_stats().unwrap().messages_sent, 4);
}

#[test]
fn kafka_error_messages() {
    assert_eq!(KafkaError::ConnectionError("x".to_string()).to_string(), "Connection error: x");
    assert_eq!(KafkaError::SerializationError("y".to_string()).to_string(), "Serialization error: y");
    assert_eq!(KafkaError::SendError("z".to_string()).to_string(), "Send error: z");
}

#[test]
fn test_kafka_consumer_config() {
    let config = kafka_config();
    assert_eq!(config.worker_id, "test-worker-1");
    assert_eq!(config.batch_size, 100);
    assert_eq!(config.topic_name, "test-market-data");
}

#[test]
fn test_kafka_consumer_worker_mock() {
    let worker = KafkaConsumerWorker::new(kafka_config());
    assert_eq!(worker.worker_id(), "test-worker-1");
    assert_eq!(worker.topic_name(), "test-market-data");
}

#[test]
fn kafka_worker_batches_cycle_from_one_to_ten() {
    let mut worker = KafkaConsumerWorker::new(kafka_config());
    let first = worker.process_batch(7);
    assert_eq!(first.len(), 1);
    let second = worker.process_batch(7);
    assert_eq!(second.len(), 2);
    let third = worker.process_batch(7);
    assert_eq!(third.len(), 4);
    assert_eq!(third[3].execution_id, "mock_exec_3");
    assert_eq!(third[3].side, "Sell");
    assert_eq!(third[3].price, 50300);
    assert_eq!(third[3].quantity, 130);
    assert_eq!(third[3].user_id, "mock_user_3");
    assert_eq!(third[3].timestamp, 7);
}

#[test]
fn kafka_mock_message_fields() {
    let m = create_mock_message(6, 99);
    assert_eq!(m.execution_id, "mock_exec_6");
    assert_eq!(m.order_id, "mock_order_6");
    assert_eq!(m.user_id, "mock_user_1");
    assert_eq!(m.side, "Buy");
}

#[test]
fn test_market_data_message_processing() {
    let message = MarketDataMessage {
        execution_id: "exec_001".to_string(),
        symbol: "BTC-KRW".to_string(),
        side: "Buy".to_string(),
        price: 50000,
        quantity: 100,
        timestamp: 1234567890,
        order_id: "order_001".to_string(),
        user_id: "user_001".to_string(),
        message_type: "execution".to_string(),
    };
    assert_eq!(message.symbol, "BTC-KRW");
    assert_eq!(message.message_type, "execution");
    // 5 000 000 won is neither large nor a whale's trade
    assert!(!is_large_trade(&message));
    assert!(!is_whale_trade(&message));
}

#[test]
fn large_and_whale_trades() {
    let mut m = create_mock_message(0, 0);
    m.price = 100_000;
    m.quantity = 1_000;
    assert!(is_large_trade(&m));
    assert!(!is_whale_trade(&m));
    m.quantity = 10_000;
    assert!(is_whale_trade(&m));
    m.price = u64::MAX;
    m.quantity = u64::MAX;
    assert!(is_whale_trade(&m));
}

#[test]
fn test_websocket_notification_message_conversion() {
    let n = WebSocketNotificationMessage::from_message(WebSocketMessageKind::Execution, "BTC-KRW", serde_json::Value::Null);
    assert_eq!(n.message_type, "execution");
    assert_eq!(n.routing_key, "execution.BTC-KRW");
    assert_eq!(n.symbol, Some("BTC-KRW".to_string()));
    assert_eq!(n.priority, 1);
    assert_eq!(n.message_id.len(), 36);
}

#[test]
fn test_user_routing_key() {
    let n = WebSocketNotificationMessage::from_message(WebSocketMessageKind::Execution, "BTC-KRW", serde_json::Value::Null);
    assert_eq!(n.with_user_routing("user_123"), "user.user_123.execution.BTC-KRW");
}

#[test]
fn test_symbol_routing_key() {
    let n = WebSocketNotificationMessage::from_message(WebSocketMessageKind::Execution, "BTC-KRW", serde_json::Value::Null);
    assert_eq!(n.with_symbol_routing(), "symbol.BTC-KRW.execution");
}

#[test]
fn test_message_priority() {
    let n = WebSocketNotificationMessage::from_message(WebSocketMessageKind::Execution, "BTC-KRW", serde_json::Value::Null);
    assert_eq!(n.priority, 1);
    let e = WebSocketNotificationMessage::from_message(WebSocketMessageKind::Error, "", serde_json::Value::Null);
    assert_eq!(e.priority, 0);
    assert_eq!(e.routing_key, "error.general");
    assert_eq!(e.symbol, None);
    assert_eq!(e.with_symbol_routing(), "error.general");
    assert_eq!(e.with_user_routing("u"), "user.u.error");
}

#[test]
fn notification_kinds_route_and_rank() {
    let u = WebSocketNotificationMessage::from_message(WebSocketMessageKind::OrderBookUpdate, "ETH-KRW", serde_json::Value::Null);
    assert_eq!(u.routing_key, "general.notification");
    assert_eq!(u.priority, 6);
    let c = WebSocketNotificationMessage::from_message(WebSocketMessageKind::CandlestickUpdate, "ETH-KRW", serde_json::Value::Null);
    assert_eq!(c.routing_key, "candlestick.ETH-KRW");
    assert_eq!(c.priority, 5);
    assert_eq!(get_priority_for_message_type("orderbook_snapshot"), 3);
    assert_eq!(get_priority_for_message_type("market_statistics"), 4);
    assert_eq!(get_priority_for_message_type("sync_response"), 1);
    assert_eq!(get_priority_for_message_type("whatever"), 6);
}

#[test]
fn test_rabbitmq_producer_mock() {
    let mut producer = RabbitMQProducer::new("amqp://localhost:5672", "websocket_notifications").unwrap();
    let result = producer.publish_websocket_message(WebSocketMessageKind::Execution, "BTC-KRW", serde_json::Value::Null);
    assert!(result.is_ok());
    let stats = producer.get_producer_stats().unwrap();
    assert_eq!(stats.messages_sent, 1);
    assert_eq!(stats.exchange_name, "websocket_notifications");
}

#[test]
fn rabbitmq_user_and_symbol_messages() {
    let mut producer = RabbitMQProducer::new("amqp://x", "ex").unwrap();
    let m = producer.publish_user_message(WebSocketMessageKind::Execution, "BTC-KRW", serde_json::Value::Null, "u1").unwrap();
    assert_eq!(m.routing_key, "user.u1.execution.BTC-KRW");
    assert_eq!(m.user_id, Some("u1".to_string()));
    let s = producer.publish_symbol_message(WebSocketMessageKind::MarketStatistics, "BTC-KRW", serde_json::Value::Null).unwrap();
    assert_eq!(s.routing_key, "symbol.BTC-KRW.market_statistics");
    assert_eq!(producer.publish_batch_messages(&vec![m, s]).unwrap(), 2);
    assert_eq!(producer.get_producer_stats().unwrap().messages_sent, 4);
    assert!(producer.setup_exchange().is_ok());
    assert!(producer.setup_dead_letter_queue().is_ok());
}

#[test]
fn rabbitmq_error_messages() {
    assert_eq!(RabbitMQError::PublishError("p".to_string()).to_string(), "Publish error: p");
    assert_eq!(RabbitMQError::ExchangeError("e".to_string()).to_string(), "Exchange error: e");
}

#[test]
fn test_routing_patterns() {
    assert_eq!(RoutingPatterns::execution_symbol("BTC-KRW"), "execution.BTC-KRW");
    assert_eq!(RoutingPatterns::orderbook_symbol("BTC-KRW"), "orderbook.*.BTC-KRW");
    assert_eq!(RoutingPatterns::market_stats_symbol("BTC-KRW"), "market.stats.BTC-KRW");
    assert_eq!(RoutingPatterns::candlestick_symbol("BTC-KRW"), "candlestick.BTC-KRW");
    assert_eq!(RoutingPatterns::user_pattern("user_123"), "user.user_123.*");
    assert_eq!(RoutingPatterns::symbol_pattern("BTC-KRW"), "symbol.BTC-KRW.*");
}

#[test]
fn test_rabbitmq_consumer_config() {
    let config = rabbit_config("ws-server-1", "ws-worker-1", vec!["execution.*".to_string(), "orderbook.*".to_string()]);
    assert_eq!(config.worker_id, "ws-worker-1");
    assert_eq!(config.batch_size, 100);
    assert_eq!(config.routing_patterns.len(), 2);
}

#[test]
fn test_rabbitmq_consumer_worker_mock() {
    let worker = RabbitMQConsumerWorker::new(rabbit_config("ws-server-1", "ws-worker-1", vec!["execution.*".to_string()])).unwrap();
    assert_eq!(worker.worker_id(), "ws-worker-1");
    assert_eq!(worker.exchange_name(), "websocket_notifications");
}

#[test]
fn test_pattern_matching() {
    let worker = RabbitMQConsumerWorker::new(rabbit_config("ws-server-1", "ws-worker-1",
        vec!["execution.*".to_string(), "orderbook.*".to_string()])).unwrap();
    assert!(worker.matches_routing_patterns("execution.BTC-KRW"));
    assert!(worker.matches_routing_patterns("orderbook.delta.BTC-KRW"));
    assert!(!worker.matches_routing_patterns("market.stats.BTC-KRW"));
}

#[test]
fn rabbitmq_worker_batches_pass_matching_notifications() {
    let mut worker = RabbitMQConsumerWorker::new(rabbit_config("q", "w", vec!["execution.*".to_string()])).unwrap();
    let b1 = worker.process_batch(5);
    assert_eq!(b1.len(), 1);
    assert_eq!(b1[0].0.routing_key, "execution.BTC-KRW");
    assert!(b1[0].1);
    let b2 = worker.process_batch(5);
    assert_eq!(b2.len(), 2);
    assert_eq!(b2[1].0.routing_key, "orderbook_delta.ETH-KRW");
    assert!(!b2[1].1);
    assert_eq!(worker.get_processed_count(), 3);
    worker.set_connection_status(false);
    assert!(!worker.is_connected());
}

#[test]
fn test_websocket_server_consumer_mock() {
    let mut consumer = WebSocketServerConsumer::new(
        rabbit_config("ws-server-1", "ws-worker-1", vec!["execution.*".to_string()]), "ws-server-1".to_string(), 1000).unwrap();
    let status = consumer.get_server_status();
    assert_eq!(status.server_id, "ws-server-1");
    assert_eq!(status.max_connections, 1000);
    let result = consumer.increment_connections();
    assert!(result.is_ok());
    assert_eq!(consumer.get_current_connections(), 1);
}

#[test]
fn websocket_server_refuses_over_limit() {
    let mut consumer = WebSocketServerConsumer::new(rabbit_config("q", "w", vec![]), "s".to_string(), 1).unwrap();
    assert!(consumer.increment_connections().is_ok());
    assert_eq!(consumer.increment_connections(), Err("최대 연결 수 초과: 1 (최대: 1)".to_string()));
    consumer.decrement_connections();
    consumer.decrement_connections();
    assert_eq!(consumer.get_current_connections(), 0);
}

#[test]
fn test_load_balancer_consumer_mock() {
    let server_configs = vec![
        (rabbit_config("ws-server-1", "ws-worker-1", vec!["execution.*".to_string()]), "ws-server-1".to_string(), 1000),
        (rabbit_config("ws-server-2", "ws-worker-2", vec!["execution.*".to_string()]), "ws-server-2".to_string(), 1000),
    ];
    let mut load_balancer = LoadBalancerConsumer::new(server_configs).unwrap();
    let server1 = load_balancer.select_server();
    assert!(server1.is_some());
    let server2 = load_balancer.select_server();
    assert!(server2.is_some());
    let statuses = load_balancer.get_all_server_status();
    assert_eq!(statuses.len(), 2);
}

#[test]
fn load_balancer_round_robin_and_least_loaded() {
    let server_configs = vec![
        (rabbit_config("a", "a", vec![]), "s1".to_string(), 10),
        (rabbit_config("b", "b", vec![]), "s2".to_string(), 10),
        (rabbit_config("c", "c", vec![]), "s3".to_string(), 10),
    ];
    let mut lb = LoadBalancerConsumer::new(server_configs).unwrap();
    assert_eq!(lb.select_server(), Some(0));
    assert_eq!(lb.select_server(), Some(1));
    assert_eq!(lb.select_server(), Some(2));
    assert_eq!(lb.select_server(), Some(0));
    assert_eq!(lb.select_least_loaded_server(), Some(0));
    lb.connect(0).unwrap();
    lb.connect(1).unwrap();
    assert_eq!(lb.select_least_loaded_server(), Some(2));
    lb.disconnect(0);
    assert_eq!(lb.select_least_loaded_server(), Some(0));
    let statuses = lb.get_all_server_status();
    assert_eq!(statuses[1].current_connections, 1);
    assert_eq!(statuses[2].server_id, "s3");
    let empty = LoadBalancerConsumer::new(vec![]).unwrap();
    assert_eq!(empty.select_least_loaded_server(), None);
}

#[test]
fn dead_letter_retries_up_to_the_limit() {
    let mut dlq = DeadLetterQueueConsumer::new(rabbit_config("dlq", "w", vec![]), 2).unwrap();
    let m = WebSocketNotificationMessage::from_message(WebSocketMessageKind::Error, "", serde_json::Value::Null);
    assert!(dlq.retry_failed_message(&m).is_ok());
    assert!(dlq.retry_failed_message(&m).is_ok());
    assert_eq!(dlq.retry_failed_message(&m), Err("최대 재시도 횟수 초과: 2".to_string()));
}

#[test]
fn test_execution_message_conversion() {
    let execution = create_test_execution();
    let message = ExecutionMessage::from_report(&execution);
    assert_eq!(message.execution_id, "exec_001");
    assert_eq!(message.symbol, "BTC-KRW");
    assert_eq!(message.side, "Buy");
    assert_eq!(message.price, 50000);
    assert_eq!(message.quantity, 100);
    assert_eq!(message.user_id, "user_placeholder");
}

#[test]
fn test_consumer_config() {
    let config = ConsumerConfig {
        redis_url: "redis://localhost:6379".to_string(),
        stream_name: "test-executions".to_string(),
        consumer_group: "test-group".to_string(),
        worker_id: "test-worker-1".to_string(),
        batch_size: 100,
        processing_interval_ms: 1000,
    };
    assert_eq!(config.worker_id, "test-worker-1");
    assert_eq!(config.batch_size, 100);
}

#[test]
fn load_balancer_refuses_over_the_limit() {
    let mut lb = LoadBalancerConsumer::new(vec![(rabbit_config("a", "a", vec![]), "s1".to_string(), 1)]).unwrap();
    assert!(lb.connect(0).is_ok());
    assert_eq!(lb.connect(0), Err("최대 연결 수 초과: 1 (최대: 1)".to_string()));
    lb.disconnect(0);
    assert!(lb.connect(0).is_ok());
}

#[test]
fn mock_notification_carries_trade_numbers() {
    let m = xtrader::mq::rabbitmq_consumer::create_mock_message(2, 77);
    assert_eq!(m.data["price"], serde_json::Value::from(50200u64));
    assert_eq!(m.data["quantity"], serde_json::Value::from(120u64));
    assert_eq!(m.data["timestamp"], serde_json::Value::from(77u64));
    assert_eq!(m.data.as_object().unwrap().len(), 3);
}
