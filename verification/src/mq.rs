//! Message queue support: the topic producer and consumers of market data, the
//! notification exchange with its WebSocket servers, the executions stream, the local
//! backup queue for messages that could not be published, the health monitor of the
//! three queues, and the recovery that republishes backed-up messages.

pub mod backup_queue;
pub mod health_monitor;
pub mod recovery_manager;
pub mod kafka_producer;
pub mod kafka_consumer;
pub mod rabbitmq_producer;
pub mod rabbitmq_consumer;
pub mod redis_streams;
