use xtrader::mq::backup_queue::{BackupMessageBuilder, LocalBackupQueue, MQType};
use xtrader::mq::health_monitor::{ConnectionStatus, HealthCheckConfig, MQHealthMonitor};
use xtrader::mq::recovery_manager::{backoff_delay, take_batch, RecoveryConfig, RecoveryManager, RecoveryStatus};

#[test]
fn test_backup_message_creation() {
    let message = BackupMessageBuilder::new(MQType::RedisStreams, "executions".to_string())
        .routing_key("BTC-KRW".to_string())
        .message_data(serde_json::Value::from("data"))
        .max_retries(5)
        .priority(1)
        .build();
    assert_eq!(message.mq_type, MQType::RedisStreams);
    assert_eq!(message.topic_stream, "executions");
    assert_eq!(message.routing_key, Some("BTC-KRW".to_string()));
    assert_eq!(message.max_retries, 5);
    assert_eq!(message.priority, 1);
}

#[test]
fn test_backup_queue_operations() {
    let mut queue = LocalBackupQueue::new("/tmp/test_backup".to_string(), 100, 1000);
    let message = BackupMessageBuilder::new(MQType::Kafka, "market-data".to_string())
        .message_data(serde_json::Value::from("BTC-KRW"))
        .build();
    queue.push_message(message.clone(), 1);
    assert_eq!(queue.size(), 1);
    let recovered = queue.recover_messages(&MQType::Kafka, 10, 2);
    assert_eq!(recovered.len(), 1);
    assert_eq!(recovered[0].id, message.id);
    // recovery took the message out of memory; put it back, then remove it by id
    queue.push_message(message.clone(), 3);
    let removed = queue.remove_message(&message.id, 4);
    assert!(removed);
    assert_eq!(queue.size(), 0);
}

#[test]
fn test_retry_count_increment() {
    let mut queue = LocalBackupQueue::new("/tmp/test_backup_retry".to_string(), 100, 1000);
    let message = BackupMessageBuilder::new(MQType::RabbitMQ, "websocket".to_string()).max_retries(3).build();
    queue.push_message(message.clone(), 0);
    let incremented = queue.increment_retry_count(&message.id, 0);
    assert!(incremented);
    let recovered = queue.recover_messages(&MQType::RabbitMQ, 10, 0);
    assert_eq!(recovered[0].retry_count, 1);
}

#[test]
fn test_queue_stats() {
    let mut queue = LocalBackupQueue::new("/tmp/test_backup_stats".to_string(), 100, 1000);
    let message1 = BackupMessageBuilder::new(MQType::RedisStreams, "executions".to_string()).max_retries(2).build();
    let message2 = BackupMessageBuilder::new(MQType::Kafka, "market-data".to_string()).max_retries(1).build();
    queue.push_message(message1, 0);
    queue.push_message(message2, 0);
    let stats = queue.get_stats();
    assert_eq!(stats.total_messages, 2);
    assert_eq!(stats.pending_messages, 2);
    assert_eq!(stats.failed_messages, 0);
}

#[test]
fn backup_queue_keeps_the_unrecovered_and_counts_failed() {
    let mut queue = LocalBackupQueue::new("/tmp/q".to_string(), 100, 1000);
    let a = BackupMessageBuilder::new(MQType::Kafka, "t".to_string()).max_retries(1).build();
    let b = BackupMessageBuilder::new(MQType::RabbitMQ, "t".to_string()).build();
    queue.push_message(a.clone(), 0);
    queue.push_message(b.clone(), 0);
    assert!(queue.increment_retry_count(&a.id, 0));
    assert_eq!(queue.get_stats().failed_messages, 1);
    assert!(!queue.remove_message("missing", 0));
    let taken = queue.recover_messages(&MQType::RabbitMQ, 10, 0);
    assert_eq!(taken.len(), 1);
    assert_eq!(taken[0].id, b.id);
    assert_eq!(queue.size(), 1);
    assert_eq!(queue.backup_file(), "/tmp/q.backup");
}

#[test]
fn mq_type_names() {
    assert_eq!(MQType::RedisStreams.name(), "RedisStreams");
    assert_eq!(MQType::Kafka.name(), "Kafka");
    assert_eq!(MQType::RabbitMQ.name(), "RabbitMQ");
}

#[test]
fn health_monitor_test_health_monitor_creation() {
    let monitor = MQHealthMonitor::new(HealthCheckConfig::default(), 0);
    assert_eq!(monitor.get_mq_status(&MQType::RedisStreams).unwrap().status, ConnectionStatus::Disconnected);
    assert_eq!(monitor.get_mq_status(&MQType::Kafka).unwrap().status, ConnectionStatus::Disconnected);
    assert_eq!(monitor.get_mq_status(&MQType::RabbitMQ).unwrap().status, ConnectionStatus::Disconnected);
}

#[test]
fn test_health_status_update() {
    let mut monitor = MQHealthMonitor::new(HealthCheckConfig::default(), 0);
    assert!(!monitor.is_all_healthy());
    assert!(!monitor.is_mq_healthy(&MQType::RedisStreams));
    assert!(!monitor.update_health_status(MQType::RedisStreams, true, 5, None, 10));
    assert!(monitor.is_mq_healthy(&MQType::RedisStreams));
    assert!(!monitor.update_health_status(MQType::Kafka, true, 5, None, 10));
    assert!(!monitor.update_health_status(MQType::RabbitMQ, true, 5, None, 10));
    assert!(monitor.is_all_healthy());
}

#[test]
fn health_monitor_fails_after_consecutive_failures() {
    let mut monitor = MQHealthMonitor::new(HealthCheckConfig::default(), 0);
    assert!(!monitor.update_health_status(MQType::Kafka, false, 0, Some("down".to_string()), 1));
    assert!(!monitor.update_health_status(MQType::Kafka, false, 0, Some("down".to_string()), 2));
    assert!(monitor.update_health_status(MQType::Kafka, false, 0, Some("down".to_string()), 3));
    let s = monitor.get_mq_status(&MQType::Kafka).unwrap();
    assert_eq!(s.status, ConnectionStatus::Failed);
    assert_eq!(s.consecutive_failures, 3);
    assert_eq!(s.total_checks, 3);
    assert_eq!(s.last_error, Some("down".to_string()));
}

#[test]
fn test_health_check_config() {
    let config = HealthCheckConfig {
        check_interval_ms: 1000,
        timeout_ms: 500,
        max_consecutive_failures: 2,
        reconnect_interval_ms: 5000,
        max_reconnect_attempts: 3,
    };
    assert_eq!(config.check_interval_ms, 1000);
    assert_eq!(config.max_consecutive_failures, 2);
}

#[test]
fn test_recovery_manager_creation() {
    let manager = RecoveryManager::new(RecoveryConfig::default(), 0);
    assert_eq!(manager.get_recovery_status(), RecoveryStatus::Idle);
    let stats = manager.get_recovery_stats();
    assert_eq!(stats.total_recovered, 0);
    assert_eq!(stats.total_failed, 0);
}

#[test]
fn test_recovery_config() {
    let config = RecoveryConfig {
        batch_size: 20,
        recovery_interval_ms: 2000,
        max_retry_delay_ms: 60000,
        base_retry_delay_ms: 2000,
        max_batch_size: 200,
        min_batch_size: 5,
    };
    assert_eq!(config.batch_size, 20);
    assert_eq!(config.recovery_interval_ms, 2000);
    assert_eq!(config.max_retry_delay_ms, 60000);
}

#[test]
fn test_exponential_backoff() {
    let config = RecoveryConfig::default();
    let message = BackupMessageBuilder::new(MQType::RedisStreams, "test".to_string()).max_retries(3).build();
    let delay = backoff_delay(&config, message.retry_count);
    assert_eq!(delay, config.base_retry_delay_ms);
}

#[test]
fn backoff_doubles_up_to_the_cap() {
    let config = RecoveryConfig::default();
    assert_eq!(backoff_delay(&config, 1), 2 * config.base_retry_delay_ms);
    assert_eq!(backoff_delay(&config, 2), 4 * config.base_retry_delay_ms);
    assert_eq!(backoff_delay(&config, 20), config.max_retry_delay_ms);
}

#[test]
fn recovery_applies_outcomes() {
    let mut queue = LocalBackupQueue::new("/tmp/r".to_string(), 100, 1000);
    let a = BackupMessageBuilder::new(MQType::Kafka, "t".to_string()).build();
    let b = BackupMessageBuilder::new(MQType::Kafka, "t".to_string()).build();
    queue.push_message(a.clone(), 0);
    queue.push_message(b.clone(), 0);
    assert!(take_batch(&mut queue, &MQType::Kafka, false, 10, 0).is_empty());
    let batch = queue.messages_in_memory();
    let mut manager = RecoveryManager::new(RecoveryConfig::default(), 0);
    assert!(manager.start_recovery());
    assert!(!manager.start_recovery());
    let n = manager.apply_outcomes(&mut queue, &batch, &vec![true, false], 5);
    assert_eq!(n, 1);
    let stats = manager.get_recovery_stats();
    assert_eq!((stats.total_recovered, stats.total_failed), (1, 1));
    assert_eq!(queue.size(), 1);
    assert_eq!(queue.messages_in_memory()[0].retry_count, 1);
    manager.stop_recovery();
    assert!(!manager.is_active());
}

#[test]
fn backup_message_moves_the_oldest_out_when_full() {
    let mut queue = LocalBackupQueue::new("/tmp/q_full".to_string(), 2, 1000);
    let a = BackupMessageBuilder::new(MQType::Kafka, "a".to_string()).build();
    let b = BackupMessageBuilder::new(MQType::Kafka, "b".to_string()).build();
    let c = BackupMessageBuilder::new(MQType::RabbitMQ, "c".to_string()).build();
    let a_id = a.id.clone();
    assert!(queue.backup_message(a, 1).is_none());
    assert!(queue.backup_message(b, 2).is_none());
    let out = queue.backup_message(c, 3).unwrap();
    assert_eq!(out.id, a_id);
    assert_eq!(queue.size(), 2);
    let topics: Vec<String> = queue.messages_in_memory().iter().map(|m| m.topic_stream.clone()).collect();
    assert_eq!(topics, vec!["b".to_string(), "c".to_string()]);
    assert_eq!(queue.get_stats().total_messages, 2);
}

#[test]
fn health_status_of_all_queues() {
    let mut monitor = MQHealthMonitor::new(HealthCheckConfig::default(), 0);
    monitor.update_health_status(MQType::Kafka, true, 12, None, 5);
    let status = monitor.get_health_status();
    assert_eq!(status.kafka.status, ConnectionStatus::Connected);
    assert_eq!(status.kafka.response_time_ms, 12);
    assert_eq!(status.redis.status, ConnectionStatus::Disconnected);
    assert_eq!(status.rabbitmq.total_checks, 0);
}

#[test]
fn manual_recovery_republishes_by_outcome() {
    let manager = RecoveryManager::new(RecoveryConfig::default(), 0);
    let mut queue = LocalBackupQueue::new("/tmp/q_manual".to_string(), 100, 1000);
    let k1 = BackupMessageBuilder::new(MQType::Kafka, "k1".to_string()).build();
    let k2 = BackupMessageBuilder::new(MQType::Kafka, "k2".to_string()).build();
    let r1 = BackupMessageBuilder::new(MQType::RedisStreams, "r1".to_string()).build();
    queue.push_message(k1, 1);
    queue.push_message(r1, 2);
    queue.push_message(k2, 3);
    let mut outcomes = vec![true; 100];
    outcomes[1] = false;
    assert_eq!(manager.trigger_manual_recovery(&mut queue, &MQType::Kafka, &outcomes, 4), 1);
    let left = queue.messages_in_memory();
    let topics: Vec<&str> = left.iter().map(|m| m.topic_stream.as_str()).collect();
    assert_eq!(topics, vec!["r1"]);
    assert_eq!(manager.get_recovery_stats().total_recovered, 0);
}

#[test]
fn recovery_report_text() {
    let manager = RecoveryManager::new(RecoveryConfig::default(), 5);
    let queue = LocalBackupQueue::new("/tmp/q_report".to_string(), 100, 1000);
    let expected = format!(
        "=== 복구 리포트 ===\n\
        상태: {:?}\n\
        총 복구: {}개\n\
        총 실패: {}개\n\
        현재 배치 크기: {}\n\
        마지막 복구 시간: {}\n\
        백업 큐 크기: {}개\n\
        대기 중: {}개\n\
        실패: {}개\n\
        =================",
        RecoveryStatus::Idle, 0, 0, 0, 5, 0, 0, 0
    );
    assert_eq!(manager.generate_recovery_report(&queue), expected);
}
