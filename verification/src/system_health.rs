//! System health: the services that are checked, what a check found, the change
//! notices, and the overall picture with its recommendations.

use vstd::prelude::*;
use crate::keys::{first_pos, lemma_first_pos, lemma_first_pos_at};
use crate::text::{decimal_of, join3, with_number};

verus! {

/// How a service is doing.
#[derive(Clone, Copy, Debug, PartialEq, Eq, Structural)]
pub enum HealthStatus {
    Healthy,
    Warning,
    Critical,
    Unknown,
}

/// A service of the system.
#[derive(Clone, Copy, Debug, PartialEq, Eq, Structural)]
pub enum ServiceType {
    Database,
    Redis,
    Kafka,
    RabbitMQ,
    MatchingEngine,
    OrderSequencer,
    WebSocketServer,
    RestApi,
    MDPConsumer,
    ExternalSync,
    RegulatoryReporting,
    AnalyticsIntegration,
    BatchProcessor,
    WorkerPool,
    CacheOptimizer,
    MetricsCollector,
}

/// The name of a status.
pub open spec fn status_name(s: HealthStatus) -> Seq<char> {
    match s {
        HealthStatus::Healthy => "Healthy"@,
        HealthStatus::Warning => "Warning"@,
        HealthStatus::Critical => "Critical"@,
        HealthStatus::Unknown => "Unknown"@,
    }
}

/// The name of a service.
pub open spec fn service_name(t: ServiceType) -> Seq<char> {
    match t {
        ServiceType::Database => "Database"@,
        ServiceType::Redis => "Redis"@,
        ServiceType::Kafka => "Kafka"@,
        ServiceType::RabbitMQ => "RabbitMQ"@,
        ServiceType::MatchingEngine => "MatchingEngine"@,
        ServiceType::OrderSequencer => "OrderSequencer"@,
        ServiceType::WebSocketServer => "WebSocketServer"@,
        ServiceType::RestApi => "RestApi"@,
        ServiceType::MDPConsumer => "MDPConsumer"@,
        ServiceType::ExternalSync => "ExternalSync"@,
        ServiceType::RegulatoryReporting => "RegulatoryReporting"@,
        ServiceType::AnalyticsIntegration => "AnalyticsIntegration"@,
        ServiceType::BatchProcessor => "BatchProcessor"@,
        ServiceType::WorkerPool => "WorkerPool"@,
        ServiceType::CacheOptimizer => "CacheOptimizer"@,
        ServiceType::MetricsCollector => "MetricsCollector"@,
    }
}

/// Settings of the checks.
#[derive(Debug)]
pub struct HealthCheckConfig {
    pub check_interval_ms: u64,
    pub timeout_ms: u64,
    pub max_consecutive_failures: u32,
    pub warning_threshold_ms: u64,
    pub critical_threshold_ms: u64,
    pub enable_notifications: bool,
    pub enable_auto_recovery: bool,
    pub services_to_check: Vec<ServiceType>,
}

/// Every service, in the order they are checked.
pub open spec fn all_services() -> Seq<ServiceType> {
    seq![
        ServiceType::Database,
        ServiceType::Redis,
        ServiceType::Kafka,
        ServiceType::RabbitMQ,
        ServiceType::MatchingEngine,
        ServiceType::OrderSequencer,
        ServiceType::WebSocketServer,
        ServiceType::RestApi,
        ServiceType::MDPConsumer,
        ServiceType::ExternalSync,
        ServiceType::RegulatoryReporting,
        ServiceType::AnalyticsIntegration,
        ServiceType::BatchProcessor,
        ServiceType::WorkerPool,
        ServiceType::CacheOptimizer,
        ServiceType::MetricsCollector,
    ]
}

impl Default for HealthCheckConfig {
    /// A check of every service every 5 s with a 3 s timeout, 3 failures in a row,
    /// warning above 1 s and critical above 3 s, notifications and recovery on.
    fn default() -> (r: Self)
        ensures
            r.check_interval_ms == 5000,
            r.timeout_ms == 3000,
            r.max_consecutive_failures == 3,
            r.warning_threshold_ms == 1000,
            r.critical_threshold_ms == 3000,
            r.enable_notifications,
            r.enable_auto_recovery,
            r.services_to_check@ == all_services(),
    {
        let mut s: Vec<ServiceType> = Vec::new();
        s.push(ServiceType::Database);
        s.push(ServiceType::Redis);
        s.push(ServiceType::Kafka);
        s.push(ServiceType::RabbitMQ);
        s.push(ServiceType::MatchingEngine);
        s.push(ServiceType::OrderSequencer);
        s.push(ServiceType::WebSocketServer);
        s.push(ServiceType::RestApi);
        s.push(ServiceType::MDPConsumer);
        s.push(ServiceType::ExternalSync);
        s.push(ServiceType::RegulatoryReporting);
        s.push(ServiceType::AnalyticsIntegration);
        s.push(ServiceType::BatchProcessor);
        s.push(ServiceType::WorkerPool);
        s.push(ServiceType::CacheOptimizer);
        s.push(ServiceType::MetricsCollector);
        proof {
            assert(s@ =~= all_services());
        }
        HealthCheckConfig {
            check_interval_ms: 5000,
            timeout_ms: 3000,
            max_consecutive_failures: 3,
            warning_threshold_ms: 1000,
            critical_threshold_ms: 3000,
            enable_notifications: true,
            enable_auto_recovery: true,
            services_to_check: s,
        }
    }
}

/// What a probe of a service reports: the status and message when it answers, and the
/// status a failed probe means for it (critical for the database, Kafka and the
/// matching engine, a warning for the others).
pub open spec fn failure_status(t: ServiceType) -> HealthStatus {
    match t {
        ServiceType::Database | ServiceType::Kafka | ServiceType::MatchingEngine => HealthStatus::Critical,
        _ => HealthStatus::Warning,
    }
}

/// The result of probing service `t`: healthy with its message when the probe
/// succeeded, else the service's failure status with its failure message.
pub fn probe_result(t: &ServiceType, ok: bool) -> (r: (HealthStatus, String))
    ensures
        r.0 == if ok { HealthStatus::Healthy } else { failure_status(*t) },
{
    let (good, bad) = match t {
        ServiceType::Database => ("데이터베이스 연결 정상", "데이터베이스 연결 실패"),
        ServiceType::Redis => ("Redis 연결 정상", "Redis 응답 지연"),
        ServiceType::Kafka => ("Kafka 브로커 연결 정상", "Kafka 브로커 연결 실패"),
        ServiceType::RabbitMQ => ("RabbitMQ 연결 정상", "RabbitMQ 큐 상태 이상"),
        ServiceType::MatchingEngine => ("매칭 엔진 정상 동작", "매칭 엔진 처리 지연"),
        ServiceType::OrderSequencer => ("주문 시퀀서 정상 동작", "주문 시퀀서 큐 포화"),
        ServiceType::WebSocketServer => ("WebSocket 서버 정상 동작", "WebSocket 연결 수 과다"),
        ServiceType::RestApi => ("REST API 정상 동작", "REST API 응답 지연"),
        ServiceType::MDPConsumer => ("MDP Consumer 정상 동작", "MDP Consumer 처리 지연"),
        ServiceType::ExternalSync => ("외부 동기화 정상 동작", "외부 API 응답 지연"),
        ServiceType::RegulatoryReporting => ("규제 보고 정상 동작", "규제 보고 처리 지연"),
        ServiceType::AnalyticsIntegration => ("분석 시스템 통합 정상 동작", "분석 시스템 응답 지연"),
        ServiceType::BatchProcessor => ("배치 처리기 정상 동작", "배치 처리 큐 포화"),
        ServiceType::WorkerPool => ("워커 풀 정상 동작", "워커 풀 과부하"),
        ServiceType::CacheOptimizer => ("캐시 최적화기 정상 동작", "캐시 메모리 부족"),
        ServiceType::MetricsCollector => ("메트릭 수집기 정상 동작", "메트릭 수집 지연"),
    };
    if ok {
        (HealthStatus::Healthy, String::from_str(good))
    } else {
        let status = match t {
            ServiceType::Database | ServiceType::Kafka | ServiceType::MatchingEngine => HealthStatus::Critical,
            _ => HealthStatus::Warning,
        };
        (status, String::from_str(bad))
    }
}

/// The whole-number part of a service's check: the service, status, message, response
/// time, time of the check, failures in a row, and whether its error rate is above 1%.
#[derive(Debug)]
pub struct ServiceCheck {
    pub service_type: ServiceType,
    pub status: HealthStatus,
    pub message: String,
    pub response_time_ms: u64,
    pub last_check: u64,
    pub consecutive_failures: u32,
    pub error_rate_high: bool,
}

impl Clone for ServiceCheck {
    fn clone(&self) -> (r: Self)
        ensures
            r == *self,
    {
        ServiceCheck {
            service_type: self.service_type,
            status: self.status,
            message: self.message.clone(),
            response_time_ms: self.response_time_ms,
            last_check: self.last_check,
            consecutive_failures: self.consecutive_failures,
            error_rate_high: self.error_rate_high,
        }
    }
}

/// The names of the checked services.
pub open spec fn check_keys(s: Seq<ServiceCheck>) -> Seq<Seq<char>> {
    s.map_values(|c: ServiceCheck| service_name(c.service_type))
}

/// The overall status: critical when a service is, else warning when one is, else
/// healthy when one is, else unknown.
pub open spec fn overall(s: Seq<ServiceCheck>) -> HealthStatus {
    if exists|i: int| 0 <= i < s.len() && s[i].status == HealthStatus::Critical {
        HealthStatus::Critical
    } else if exists|i: int| 0 <= i < s.len() && s[i].status == HealthStatus::Warning {
        HealthStatus::Warning
    } else if exists|i: int| 0 <= i < s.len() && s[i].status == HealthStatus::Healthy {
        HealthStatus::Healthy
    } else {
        HealthStatus::Unknown
    }
}

/// The number of services in status `st`.
pub open spec fn count_status(s: Seq<ServiceCheck>, st: HealthStatus) -> nat
    decreases s.len(),
{
    if s.len() == 0 {
        0
    } else {
        count_status(s.drop_last(), st) + if s.last().status == st { 1nat } else { 0nat }
    }
}

pub proof fn lemma_count_status(s: Seq<ServiceCheck>, st: HealthStatus)
    ensures
        count_status(s, st) <= s.len(),
        count_status(s, st) > 0 <==> exists|i: int| 0 <= i < s.len() && s[i].status == st,
    decreases s.len(),
{
    if s.len() > 0 {
        lemma_count_status(s.drop_last(), st);
        if exists|i: int| 0 <= i < s.drop_last().len() && s.drop_last()[i].status == st {
            let i = choose|i: int| 0 <= i < s.drop_last().len() && s.drop_last()[i].status == st;
            assert(s[i].status == st);
        }
        if exists|i: int| 0 <= i < s.len() && s[i].status == st {
            let i = choose|i: int| 0 <= i < s.len() && s[i].status == st;
            if i < s.len() - 1 {
                assert(s.drop_last()[i].status == st);
            }
        }
    }
}

/// The recommendations for one service: one for a critical or warning status, one for
/// a response time above 1000 ms, one for a high error rate.
pub open spec fn recs_for(c: ServiceCheck) -> Seq<Seq<char>> {
    let n = service_name(c.service_type);
    let a: Seq<Seq<char>> = match c.status {
        HealthStatus::Critical => seq![n + " 서비스가 위험 상태입니다. 즉시 확인이 필요합니다."@],
        HealthStatus::Warning => seq![n + " 서비스가 경고 상태입니다. 모니터링을 강화하세요."@],
        _ => Seq::empty(),
    };
    let b: Seq<Seq<char>> = if c.response_time_ms > 1000 {
        seq![n + " 서비스의 응답시간이 느립니다. 성능 최적화를 고려하세요."@]
    } else {
        Seq::empty()
    };
    let e: Seq<Seq<char>> = if c.error_rate_high {
        seq![n + " 서비스의 에러율이 높습니다. 로그를 확인하세요."@]
    } else {
        Seq::empty()
    };
    a + b + e
}

/// The recommendations for all services in order.
pub open spec fn recs_all(s: Seq<ServiceCheck>) -> Seq<Seq<char>>
    decreases s.len(),
{
    if s.len() == 0 { Seq::empty() } else { recs_all(s.drop_last()) + recs_for(s.last()) }
}

/// The recommendations: those of the services, or one that says all is well.
pub open spec fn recommendations(s: Seq<ServiceCheck>) -> Seq<Seq<char>> {
    if recs_all(s).len() == 0 { seq!["모든 서비스가 정상 동작 중입니다."@] } else { recs_all(s) }
}

/// The overall picture of the system.
#[derive(Debug)]
pub struct SystemSummary {
    pub overall_status: HealthStatus,
    pub total_services: usize,
    pub healthy_services: usize,
    pub warning_services: usize,
    pub critical_services: usize,
    pub unknown_services: usize,
    pub system_uptime_seconds: u64,
    pub last_check: u64,
    pub recommendations: Vec<String>,
}

fn push_rec(out: &mut Vec<String>, name: &String, tail: &str)
    ensures
        final(out)@.map_values(|s: String| s@) == old(out)@.map_values(|s: String| s@).push(name@ + tail@),
{
    let s = join3(name.as_str(), tail, "");
    let ghost before = out@;
    out.push(s);
    proof {
        reveal_strlit("");
        assert(s@ =~= name@ + tail@);
        assert(out@.map_values(|s: String| s@) =~= before.map_values(|s: String| s@).push(name@ + tail@));
    }
}

/// The health monitor of the services.
pub struct SystemHealthMonitor {
    config: HealthCheckConfig,
    service_healths: Vec<ServiceCheck>,
    system_start_time: u64,
    is_running: bool,
}

impl SystemHealthMonitor {
    /// The name of a status: "Healthy", "Warning", "Critical" or "Unknown".
    pub fn status_to_string(status: &HealthStatus) -> (r: String)
        ensures
            r@ == status_name(*status),
    {
        match status {
            HealthStatus::Healthy => String::from_str("Healthy"),
            HealthStatus::Warning => String::from_str("Warning"),
            HealthStatus::Critical => String::from_str("Critical"),
            HealthStatus::Unknown => String::from_str("Unknown"),
        }
    }

    /// The name of a service, e.g. "Database".
    pub fn service_type_to_string(service_type: &ServiceType) -> (r: String)
        ensures
            r@ == service_name(*service_type),
    {
        match service_type {
            ServiceType::Database => String::from_str("Database"),
            ServiceType::Redis => String::from_str("Redis"),
            ServiceType::Kafka => String::from_str("Kafka"),
            ServiceType::RabbitMQ => String::from_str("RabbitMQ"),
            ServiceType::MatchingEngine => String::from_str("MatchingEngine"),
            ServiceType::OrderSequencer => String::from_str("OrderSequencer"),
            ServiceType::WebSocketServer => String::from_str("WebSocketServer"),
            ServiceType::RestApi => String::from_str("RestApi"),
            ServiceType::MDPConsumer => String::from_str("MDPConsumer"),
            ServiceType::ExternalSync => String::from_str("ExternalSync"),
            ServiceType::RegulatoryReporting => String::from_str("RegulatoryReporting"),
            ServiceType::AnalyticsIntegration => String::from_str("AnalyticsIntegration"),
            ServiceType::BatchProcessor => String::from_str("BatchProcessor"),
            ServiceType::WorkerPool => String::from_str("WorkerPool"),
            ServiceType::CacheOptimizer => String::from_str("CacheOptimizer"),
            ServiceType::MetricsCollector => String::from_str("MetricsCollector"),
        }
    }

    /// The last check of each service, in the order first checked.
    pub closed spec fn checks(&self) -> Seq<ServiceCheck> {
        self.service_healths@
    }

    /// The services to check, in order.
    pub closed spec fn services(&self) -> Seq<ServiceType> {
        self.config.services_to_check@
    }

    /// Whether notifications are sent.
    pub closed spec fn notifies(&self) -> bool {
        self.config.enable_notifications
    }

    /// Whether the monitor runs.
    pub closed spec fn running(&self) -> bool {
        self.is_running
    }

    /// When the system started, in seconds.
    pub closed spec fn started(&self) -> u64 {
        self.system_start_time
    }

    /// Each service is checked once at most.
    pub open spec fn wf(&self) -> bool {
        crate::keys::distinct(check_keys(self.checks()))
    }

    /// A monitor with no checks, started at `now_secs`.
    pub fn new(config: HealthCheckConfig, now_secs: u64) -> (r: Self)
        ensures
            r.wf(),
            r.checks().len() == 0,
            r.notifies() == config.enable_notifications,
            r.services() == config.services_to_check@,
            r.started() == now_secs,
            !r.running(),
    {
        SystemHealthMonitor { config, service_healths: Vec::new(), system_start_time: now_secs, is_running: false }
    }

    /// Starts the monitor; false, and nothing changes, when it already runs.
    pub fn start(&mut self) -> (r: bool)
        ensures
            r == !old(self).running(),
            final(self).running(),
            final(self).checks() == old(self).checks(),
            final(self).notifies() == old(self).notifies(),
            final(self).started() == old(self).started(),
    {
        if self.is_running {
            return false;
        }
        self.is_running = true;
        true
    }

    /// Stops the monitor.
    pub fn stop(&mut self)
        ensures
            !final(self).running(),
            final(self).checks() == old(self).checks(),
            final(self).notifies() == old(self).notifies(),
            final(self).started() == old(self).started(),
    {
        self.is_running = false;
    }

    /// The services to check, in order.
    pub fn services_to_check(&self) -> (r: &Vec<ServiceType>)
        ensures
            r@ == self.services(),
    {
        &self.config.services_to_check
    }

    fn find(&self, name: &str) -> (r: usize)
        ensures
            r == first_pos(check_keys(self.checks()), name@),
    {
        let ghost ks = check_keys(self.service_healths@);
        proof {
            lemma_first_pos(ks, name@);
        }
        let key = String::from_str(name);
        let n = self.service_healths.len();
        let mut k: usize = 0;
        while k < n
            invariant
                n == self.service_healths@.len(),
                ks == check_keys(self.service_healths@),
                key@ == name@,
                k <= n,
                forall|j: int| 0 <= j < k ==> ks[j] != name@,
            decreases n - k,
        {
            let here = SystemHealthMonitor::service_type_to_string(&self.service_healths[k].service_type);
            if here == key {
                proof {
                    lemma_first_pos_at(ks, name@, k as int);
                }
                return k;
            }
            k = k + 1;
        }
        proof {
            lemma_first_pos_at(ks, name@, n as int);
        }
        n
    }

    /// Takes a service's check: it replaces the service's last check. When the status
    /// changed and notifications are on, answers the notice
    /// "서비스 상태 변경: <service> - <old> → <new>".
    pub fn record_check(&mut self, check: ServiceCheck) -> (r: Option<String>)
        requires
            old(self).wf(),
        ensures
            final(self).wf(),
            ({
                let name = service_name(check.service_type);
                let k = first_pos(check_keys(old(self).checks()), name);
                let old_checks = old(self).checks();
                &&& final(self).checks() == if k < old_checks.len() {
                    old_checks.update(k as int, check)
                } else {
                    old_checks.push(check)
                }
                &&& match r {
                    Some(msg) => k < old_checks.len() && old_checks[k as int].status != check.status
                        && old(self).notifies() && msg@ == "서비스 상태 변경: "@ + name + " - "@ + status_name(
                        old_checks[k as int].status,
                    ) + " → "@ + status_name(check.status),
                    None => !(k < old_checks.len() && old_checks[k as int].status != check.status
                        && old(self).notifies()),
                }
            }),
            final(self).notifies() == old(self).notifies(),
            final(self).running() == old(self).running(),
            final(self).started() == old(self).started(),
    {
        let ghost name = service_name(check.service_type);
        let sname = SystemHealthMonitor::service_type_to_string(&check.service_type);
        let k = self.find(sname.as_str());
        let ghost before = self.service_healths@;
        proof {
            lemma_first_pos(check_keys(before), name);
        }
        let mut notice: Option<String> = None;
        if k < self.service_healths.len() {
            let prev = self.service_healths[k].status;
            if prev != check.status && self.config.enable_notifications {
                let a = join3("서비스 상태 변경: ", sname.as_str(), " - ");
                let o = SystemHealthMonitor::status_to_string(&prev);
                let b = join3(a.as_str(), o.as_str(), " → ");
                let nn = SystemHealthMonitor::status_to_string(&check.status);
                let msg = join3(b.as_str(), nn.as_str(), "");
                proof {
                    reveal_strlit("");
                    assert(msg@ =~= "서비스 상태 변경: "@ + name + " - "@ + status_name(prev) + " → "@ + status_name(
                        check.status,
                    ));
                }
                notice = Some(msg);
            }
            self.service_healths.set(k, check);
            proof {
                assert(check_keys(self.service_healths@) =~= check_keys(before));
            }
        } else {
            self.service_healths.push(check);
            proof {
                let ks = check_keys(self.service_healths@);
                assert(ks.drop_last() =~= check_keys(before));
                assert(ks[ks.len() - 1] == name);
                assert forall|i: int, j: int| 0 <= i < j < ks.len() implies ks[i] != ks[j] by {
                    assert(ks[i] == check_keys(before)[i]);
                    if j < ks.len() - 1 {
                        assert(ks[j] == check_keys(before)[j]);
                    }
                }
            }
        }
        notice
    }

    /// The notification of a status change of `service_name` from `old_status` to
    /// `new_status` at `now_millis`, with its kind "status_change": the caller hands it
    /// to the notification sender.
    pub fn send_status_change_notification(
        &self,
        service_name: &str,
        old_status: &HealthStatus,
        new_status: &HealthStatus,
        now_millis: u64,
    ) -> (r: (String, String))
        ensures
            r.0@ == "서비스 상태 변경 알림\n서비스: "@ + service_name@ + "\n이전 상태: "@ + status_name(*old_status)
                + "\n현재 상태: "@ + status_name(*new_status) + "\n시간: "@ + decimal_of(now_millis as nat),
            r.1@ == "status_change"@,
    {
        let a = join3("서비스 상태 변경 알림\n서비스: ", service_name, "\n이전 상태: ");
        let o = SystemHealthMonitor::status_to_string(old_status);
        let b = join3(a.as_str(), o.as_str(), "\n현재 상태: ");
        let n = SystemHealthMonitor::status_to_string(new_status);
        let c = join3(b.as_str(), n.as_str(), "\n시간: ");
        let message = with_number(c.as_str(), now_millis);
        (message, String::from_str("status_change"))
    }

    /// A copy of the last check of the service named `service_name`.
    pub fn get_service_health(&self, name: &str) -> (r: Option<ServiceCheck>)
        ensures
            ({
                let k = first_pos(check_keys(self.checks()), name@);
                &&& (r is Some) == (k < self.checks().len())
                &&& r matches Some(c) ==> c == self.checks()[k as int]
            }),
    {
        let k = self.find(name);
        if k < self.service_healths.len() {
            Some(self.service_healths[k].clone())
        } else {
            None
        }
    }

    /// The overall picture at `now` (milliseconds) and `now_secs` (seconds): the
    /// overall status, the number of services in each status, the time since the start
    /// and the recommendations.
    pub fn get_system_health(&self, now: u64, now_secs: u64) -> (r: SystemSummary)
        requires
            now_secs >= self.started(),
        ensures
            r.overall_status == overall(self.checks()),
            r.total_services == self.checks().len(),
            r.healthy_services == count_status(self.checks(), HealthStatus::Healthy),
            r.warning_services == count_status(self.checks(), HealthStatus::Warning),
            r.critical_services == count_status(self.checks(), HealthStatus::Critical),
            r.unknown_services == count_status(self.checks(), HealthStatus::Unknown),
            r.system_uptime_seconds == now_secs - self.started(),
            r.last_check == now,
            r.recommendations@.map_values(|s: String| s@) == recommendations(self.checks()),
    {
        let s = &self.service_healths;
        let n = s.len();
        let h = count_in(s, HealthStatus::Healthy);
        let w = count_in(s, HealthStatus::Warning);
        let c = count_in(s, HealthStatus::Critical);
        let u = count_in(s, HealthStatus::Unknown);
        proof {
            lemma_count_status(s@, HealthStatus::Healthy);
            lemma_count_status(s@, HealthStatus::Warning);
            lemma_count_status(s@, HealthStatus::Critical);
        }
        let mut recs = recs_of(s);
        let overall_status = if c > 0 {
            HealthStatus::Critical
        } else if w > 0 {
            HealthStatus::Warning
        } else if h > 0 {
            HealthStatus::Healthy
        } else {
            HealthStatus::Unknown
        };
        if recs.len() == 0 {
            recs.push(String::from_str("모든 서비스가 정상 동작 중입니다."));
            proof {
                assert(recs@.map_values(|x: String| x@) =~= seq!["모든 서비스가 정상 동작 중입니다."@]);
            }
        }
        SystemSummary {
            overall_status,
            total_services: n,
            healthy_services: h,
            warning_services: w,
            critical_services: c,
            unknown_services: u,
            system_uptime_seconds: now_secs - self.system_start_time,
            last_check: now,
            recommendations: recs,
        }
    }
}

/// The number of checks in status `st`.
fn count_in(s: &Vec<ServiceCheck>, st: HealthStatus) -> (r: usize)
    ensures
        r == count_status(s@, st),
{
    let n = s.len();
    let mut k: usize = 0;
    let mut i: usize = 0;
    while i < n
        invariant
            n == s@.len(),
            i <= n,
            k == count_status(s@.take(i as int), st),
            k <= i,
        decreases n - i,
    {
        proof {
            let t = s@.take(i + 1);
            assert(t.drop_last() =~= s@.take(i as int));
            lemma_count_status(s@.take(i as int), st);
        }
        if s[i].status == st {
            k = k + 1;
        }
        i = i + 1;
    }
    proof {
        assert(s@.take(n as int) =~= s@);
    }
    k
}

/// Appends the recommendations for one check.
fn push_recs_for(out: &mut Vec<String>, chk: &ServiceCheck)
    ensures
        final(out)@.map_values(|x: String| x@) == old(out)@.map_values(|x: String| x@) + recs_for(*chk),
{
    let ghost before = out@.map_values(|x: String| x@);
    let name = SystemHealthMonitor::service_type_to_string(&chk.service_type);
    match chk.status {
        HealthStatus::Critical => push_rec(out, &name, " 서비스가 위험 상태입니다. 즉시 확인이 필요합니다."),
        HealthStatus::Warning => push_rec(out, &name, " 서비스가 경고 상태입니다. 모니터링을 강화하세요."),
        _ => {},
    }
    if chk.response_time_ms > 1000 {
        push_rec(out, &name, " 서비스의 응답시간이 느립니다. 성능 최적화를 고려하세요.");
    }
    if chk.error_rate_high {
        push_rec(out, &name, " 서비스의 에러율이 높습니다. 로그를 확인하세요.");
    }
    proof {
        assert(out@.map_values(|x: String| x@) =~= before + recs_for(*chk));
    }
}

/// The recommendations for the checks in order.
fn recs_of(s: &Vec<ServiceCheck>) -> (r: Vec<String>)
    ensures
        r@.map_values(|x: String| x@) == recs_all(s@),
{
    let n = s.len();
    let mut recs: Vec<String> = Vec::new();
    let mut i: usize = 0;
    proof {
        assert(recs@.map_values(|x: String| x@) =~= recs_all(s@.take(0)));
    }
    while i < n
        invariant
            n == s@.len(),
            i <= n,
            recs@.map_values(|x: String| x@) == recs_all(s@.take(i as int)),
        decreases n - i,
    {
        proof {
            let t = s@.take(i + 1);
            assert(t.drop_last() =~= s@.take(i as int));
            assert(t.last() == s@[i as int]);
        }
        push_recs_for(&mut recs, &s[i]);
        i = i + 1;
    }
    proof {
        assert(s@.take(n as int) =~= s@);
    }
    recs
}

} // verus!
