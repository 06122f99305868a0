//! The health monitor of the three message queues: each check moves a queue's state
//! between connected, disconnected and failed.

use vstd::prelude::*;
use crate::mq::backup_queue::{BackupMessage, BackupMessageBuilder, MQType};

verus! {

/// The state of a connection.
#[derive(Clone, Copy, Debug, PartialEq, Eq, Structural)]
pub enum ConnectionStatus {
    Connected,
    Disconnected,
    Reconnecting,
    Failed,
}

/// Settings of the checks.
#[derive(Debug, Clone, Copy)]
pub struct HealthCheckConfig {
    pub check_interval_ms: u64,
    pub timeout_ms: u64,
    pub max_consecutive_failures: u32,
    pub reconnect_interval_ms: u64,
    pub max_reconnect_attempts: u32,
}

impl Default for HealthCheckConfig {
    /// A check every 5 s with a 3 s timeout, failed after 3 failures in a row,
    /// reconnection every 10 s up to 5 times.
    fn default() -> (r: Self)
        ensures
            r.check_interval_ms == 5000,
            r.timeout_ms == 3000,
            r.max_consecutive_failures == 3,
            r.reconnect_interval_ms == 10000,
            r.max_reconnect_attempts == 5,
    {
        HealthCheckConfig {
            check_interval_ms: 5000,
            timeout_ms: 3000,
            max_consecutive_failures: 3,
            reconnect_interval_ms: 10000,
            max_reconnect_attempts: 5,
        }
    }
}

/// The whole-number state of one queue's health: connection state, time of the last
/// check, failures in a row, checks, the last error and the last response time.
#[derive(Debug)]
pub struct HealthState {
    pub status: ConnectionStatus,
    pub last_check_time: u64,
    pub consecutive_failures: u32,
    pub total_checks: u32,
    pub last_error: Option<String>,
    pub response_time_ms: u64,
}

impl Clone for HealthState {
    fn clone(&self) -> (r: Self)
        ensures
            r == *self,
    {
        HealthState {
            status: self.status,
            last_check_time: self.last_check_time,
            consecutive_failures: self.consecutive_failures,
            total_checks: self.total_checks,
            last_error: match &self.last_error {
                Some(e) => Some(e.clone()),
                None => None,
            },
            response_time_ms: self.response_time_ms,
        }
    }
}

/// `x + 1` wrapping around at 2^32.
pub open spec fn inc32(x: u32) -> u32 {
    if x == u32::MAX { 0 } else { (x + 1) as u32 }
}

/// A state after a check at `now` that took `response_time` ms: a success connects and
/// clears the failures and the error; a failure counts one more failure in a row and
/// keeps the error, and fails the queue once the failures reach the limit (else
/// disconnects it).
pub open spec fn after_check(
    s: HealthState,
    healthy: bool,
    response_time: u64,
    error: Option<String>,
    now: u64,
    max_failures: u32,
) -> HealthState {
    if healthy {
        HealthState {
            status: ConnectionStatus::Connected,
            last_check_time: now,
            consecutive_failures: 0,
            total_checks: inc32(s.total_checks),
            last_error: None,
            response_time_ms: response_time,
        }
    } else {
        let f = inc32(s.consecutive_failures);
        HealthState {
            status: if f >= max_failures { ConnectionStatus::Failed } else { ConnectionStatus::Disconnected },
            last_check_time: now,
            consecutive_failures: f,
            total_checks: inc32(s.total_checks),
            last_error: error,
            response_time_ms: response_time,
        }
    }
}

/// The states of the three queues.
#[derive(Debug)]
pub struct MQHealthStatus {
    pub redis: HealthState,
    pub kafka: HealthState,
    pub rabbitmq: HealthState,
}

/// The health monitor of Redis Streams, Kafka and RabbitMQ.
pub struct MQHealthMonitor {
    redis: HealthState,
    kafka: HealthState,
    rabbitmq: HealthState,
    config: HealthCheckConfig,
    is_monitoring: bool,
}

impl MQHealthMonitor {
    /// The state of a queue.
    pub closed spec fn state(&self, t: MQType) -> HealthState {
        match t {
            MQType::RedisStreams => self.redis,
            MQType::Kafka => self.kafka,
            MQType::RabbitMQ => self.rabbitmq,
        }
    }

    /// The settings.
    pub closed spec fn settings(&self) -> HealthCheckConfig {
        self.config
    }

    /// Whether monitoring runs.
    pub closed spec fn monitoring(&self) -> bool {
        self.is_monitoring
    }

    /// A monitor with every queue disconnected, checked at `now` and never since.
    pub fn new(config: HealthCheckConfig, now: u64) -> (r: Self)
        ensures
            forall|t: MQType| #[trigger] r.state(t) == (HealthState {
                status: ConnectionStatus::Disconnected,
                last_check_time: now,
                consecutive_failures: 0,
                total_checks: 0,
                last_error: None,
                response_time_ms: 0,
            }),
            r.settings() == config,
            !r.monitoring(),
    {
        let s = HealthState {
            status: ConnectionStatus::Disconnected,
            last_check_time: now,
            consecutive_failures: 0,
            total_checks: 0,
            last_error: None,
            response_time_ms: 0,
        };
        MQHealthMonitor { redis: s.clone(), kafka: s.clone(), rabbitmq: s, config, is_monitoring: false }
    }

    /// Starts monitoring; false, and nothing changes, when it already runs.
    pub fn start_monitoring(&mut self) -> (r: bool)
        ensures
            r == !old(self).monitoring(),
            final(self).monitoring(),
            forall|t: MQType| #[trigger] final(self).state(t) == old(self).state(t),
            final(self).settings() == old(self).settings(),
    {
        if self.is_monitoring {
            return false;
        }
        self.is_monitoring = true;
        true
    }

    /// Stops monitoring.
    pub fn stop_monitoring(&mut self)
        ensures
            !final(self).monitoring(),
            forall|t: MQType| #[trigger] final(self).state(t) == old(self).state(t),
            final(self).settings() == old(self).settings(),
    {
        self.is_monitoring = false;
    }

    /// Takes the result of a check of queue `t` at `now`; answers whether the queue has
    /// just been found failed (so that the failure is to be reported).
    pub fn update_health_status(
        &mut self,
        t: MQType,
        healthy: bool,
        response_time: u64,
        error: Option<String>,
        now: u64,
    ) -> (r: bool)
        ensures
            final(self).state(t) == after_check(
                old(self).state(t),
                healthy,
                response_time,
                error,
                now,
                old(self).settings().max_consecutive_failures,
            ),
            forall|u: MQType| u != t ==> #[trigger] final(self).state(u) == old(self).state(u),
            r == (final(self).state(t).status == ConnectionStatus::Failed),
            final(self).settings() == old(self).settings(),
            final(self).monitoring() == old(self).monitoring(),
    {
        let max = self.config.max_consecutive_failures;
        let s = match t {
            MQType::RedisStreams => &mut self.redis,
            MQType::Kafka => &mut self.kafka,
            MQType::RabbitMQ => &mut self.rabbitmq,
        };
        s.last_check_time = now;
        s.total_checks = s.total_checks.wrapping_add(1);
        s.response_time_ms = response_time;
        if healthy {
            s.consecutive_failures = 0;
            s.status = ConnectionStatus::Connected;
            s.last_error = None;
            false
        } else {
            s.consecutive_failures = s.consecutive_failures.wrapping_add(1);
            s.last_error = error;
            if s.consecutive_failures >= max {
                s.status = ConnectionStatus::Failed;
                true
            } else {
                s.status = ConnectionStatus::Disconnected;
                false
            }
        }
    }

    /// A copy of the states of all three queues.
    pub fn get_health_status(&self) -> (r: MQHealthStatus)
        ensures
            r.redis == self.state(MQType::RedisStreams),
            r.kafka == self.state(MQType::Kafka),
            r.rabbitmq == self.state(MQType::RabbitMQ),
    {
        MQHealthStatus { redis: self.redis.clone(), kafka: self.kafka.clone(), rabbitmq: self.rabbitmq.clone() }
    }

    /// A copy of the state of queue `t`.
    pub fn get_mq_status(&self, t: &MQType) -> (r: Option<HealthState>)
        ensures
            r == Some(self.state(*t)),
    {
        match t {
            MQType::RedisStreams => Some(self.redis.clone()),
            MQType::Kafka => Some(self.kafka.clone()),
            MQType::RabbitMQ => Some(self.rabbitmq.clone()),
        }
    }

    /// Whether every queue is connected.
    pub fn is_all_healthy(&self) -> (r: bool)
        ensures
            r == (self.state(MQType::RedisStreams).status == ConnectionStatus::Connected && self.state(
                MQType::Kafka,
            ).status == ConnectionStatus::Connected && self.state(MQType::RabbitMQ).status
                == ConnectionStatus::Connected),
    {
        self.redis.status == ConnectionStatus::Connected && self.kafka.status == ConnectionStatus::Connected
            && self.rabbitmq.status == ConnectionStatus::Connected
    }

    /// Whether queue `t` is connected.
    pub fn is_mq_healthy(&self, t: &MQType) -> (r: bool)
        ensures
            r == (self.state(*t).status == ConnectionStatus::Connected),
    {
        match t {
            MQType::RedisStreams => self.redis.status == ConnectionStatus::Connected,
            MQType::Kafka => self.kafka.status == ConnectionStatus::Connected,
            MQType::RabbitMQ => self.rabbitmq.status == ConnectionStatus::Connected,
        }
    }
}

/// The message that reports a failed queue to the backup queue: topic "health_monitor",
/// the given data, top priority 0 and one retry.
pub fn failure_notice(t: MQType, data: serde_json::Value) -> (r: BackupMessage)
    ensures
        r.mq_type == t,
        r.topic_stream@ == "health_monitor"@,
        r.message_data == data,
        r.priority == 0,
        r.max_retries == 1,
        r.retry_count == 0,
        r.routing_key is None,
{
    BackupMessageBuilder::new(t, String::from_str("health_monitor")).message_data(data).priority(0).max_retries(
        1,
    ).build()
}

} // verus!
