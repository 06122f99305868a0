use std::collections::HashMap;
use xtrader::dashboard::{DashboardConfig, DashboardDataProvider, DashboardLayout, DashboardServer, DashboardWidget,
    WidgetType};
use xtrader::log_analyzer::{build_indexes, LogAnalyzer, LogAnalyzerConfig, LogEntry, LogLevel, LogPattern, LogQuery};
use xtrader::notification::{ConsoleNotificationHandler, DeliveryStep, EmailNotificationHandler, NotificationChannel,
    NotificationChannelHandler, NotificationConfig, NotificationMessage, NotificationPriority, NotificationSystem,
    NotificationType, RateLimiter, SlackNotificationHandler};
use xtrader::system_health::{HealthCheckConfig, HealthStatus, ServiceCheck, ServiceType, SystemHealthMonitor};

fn entry(id: &str, level: LogLevel, message: &str, module: &str, tag: &str) -> LogEntry {
    LogEntry {
        id: id.to_string(),
        timestamp: 1_700_000_000_000,
        level,
        message: message.to_string(),
        module: module.to_string(),
        thread_id: "thread_1".to_string(),
        file: "test.rs".to_string(),
        line: 10,
        metadata: HashMap::new(),
        tags: vec![tag.to_string()],
    }
}

#[test]
fn test_dashboard_server_creation() {
    let server = DashboardServer::new(DashboardConfig::default());
    let stats = server.get_dashboard_stats();
    assert_eq!(stats.total_layouts, 1);
    assert_eq!(stats.total_widgets, 4);
    assert_eq!(stats.active_layout, "default");
}

#[test]
fn test_layout_operations() {
    let mut server = DashboardServer::new(DashboardConfig::default());
    let new_layout = DashboardLayout {
        id: "test_layout".to_string(),
        name: "테스트 레이아웃".to_string(),
        description: "테스트용 레이아웃".to_string(),
        widgets: Vec::new(),
        created_at: 1,
        updated_at: 1,
        is_default: false,
    };
    assert!(server.create_layout(new_layout).is_ok());
    assert!(server.get_layout("test_layout").is_some());
    assert!(server.switch_layout("test_layout").is_ok());
    assert!(server.delete_layout("test_layout").is_ok());
    assert_eq!(server.get_current_layout().unwrap().id, "default");
}

#[test]
fn layout_errors() {
    let mut server = DashboardServer::new(DashboardConfig::default());
    assert_eq!(server.delete_layout("default"), Err("기본 레이아웃은 삭제할 수 없습니다".to_string()));
    assert_eq!(server.delete_layout("nope"), Err("레이아웃을 찾을 수 없습니다: nope".to_string()));
    let mut l = server.get_layout("default").unwrap();
    l.is_default = false;
    assert_eq!(server.create_layout(l), Err("레이아웃이 이미 존재합니다: default".to_string()));
}

#[test]
fn test_widget_operations() {
    let mut server = DashboardServer::new(DashboardConfig::default());
    let widget = DashboardWidget {
        id: "test_widget".to_string(),
        title: "테스트 위젯".to_string(),
        widget_type: WidgetType::Custom,
        position: (0, 0),
        size: (2, 2),
        config: HashMap::new(),
        data: serde_json::Value::Null,
        last_updated: 0,
    };
    assert!(server.add_widget("default", widget).is_ok());
    assert_eq!(server.get_dashboard_stats().total_widgets, 5);
    assert!(server.remove_widget("default", "test_widget").is_ok());
    assert_eq!(server.get_dashboard_stats().total_widgets, 4);
}

#[test]
fn test_websocket_client_operations() {
    let mut server = DashboardServer::new(DashboardConfig::default());
    assert!(server.connect_websocket_client("client1".to_string()).is_ok());
    assert_eq!(server.get_connected_clients_count(), 1);
    assert!(server.disconnect_websocket_client("client1").is_ok());
    assert_eq!(server.get_connected_clients_count(), 0);
}

#[test]
fn test_data_provider() {
    let mut provider = DashboardDataProvider::new();
    let health_data = serde_json::Value::from("healthy");
    provider.update_system_health(health_data.clone());
    let widget_data = provider.get_widget_data(&WidgetType::SystemHealth, "system_health");
    assert_eq!(widget_data, health_data);
}

#[test]
fn test_log_analyzer_creation() {
    let analyzer = LogAnalyzer::new(LogAnalyzerConfig::default());
    assert_eq!(analyzer.get_counts().total_entries, 0);
    assert_eq!(analyzer.get_counts().error_count, 0);
}

#[test]
fn test_log_entry_addition() {
    let mut analyzer = LogAnalyzer::new(LogAnalyzerConfig::default());
    analyzer.add_log_entry(entry("test_entry", LogLevel::Info, "테스트 메시지", "test_module", "test"));
    assert_eq!(analyzer.get_entry_count(), 1);
}

#[test]
fn test_log_search() {
    let mut analyzer = LogAnalyzer::new(LogAnalyzerConfig::default());
    analyzer.add_log_entry(entry("entry1", LogLevel::Info, "정보 메시지", "module1", "info"));
    analyzer.add_log_entry(entry("entry2", LogLevel::Error, "에러 메시지", "module2", "error"));
    let query = LogQuery { level: Some(LogLevel::Error), ..Default::default() };
    let result = analyzer.search_logs(query);
    assert_eq!(result.entries.len(), 1);
    assert_eq!(result.entries[0].level, LogLevel::Error);
}

#[test]
fn log_search_pages_and_filters() {
    let mut analyzer = LogAnalyzer::new(LogAnalyzerConfig::default());
    for i in 0..5 {
        analyzer.add_log_entry(entry(&format!("e{}", i), LogLevel::Warn, "disk slow", "io", "disk"));
    }
    let page = analyzer.search_logs(LogQuery { limit: Some(2), offset: Some(1), ..Default::default() });
    assert_eq!(page.entries.len(), 2);
    assert_eq!((page.entries[0].id.as_str(), page.entries[1].id.as_str()), ("e1", "e2"));
    assert_eq!(page.total_count, 5);
    assert!(page.has_more);
    let last = analyzer.search_logs(LogQuery { limit: Some(2), offset: Some(3), ..Default::default() });
    assert_eq!(last.entries.len(), 2);
    assert_eq!(last.total_count, 5);
    assert!(!last.has_more);
    let past = analyzer.search_logs(LogQuery { limit: Some(2), offset: Some(7), ..Default::default() });
    assert!(past.entries.is_empty());
    assert!(!past.has_more);
    let by_module = analyzer.search_logs(LogQuery { module: Some("db".to_string()), ..Default::default() });
    assert_eq!(by_module.entries.len(), 0);
    let by_text = analyzer.search_logs(LogQuery { text: Some("slow".to_string()), ..Default::default() });
    assert_eq!(by_text.total_count, 5);
    let other_case = analyzer.search_logs(LogQuery { text: Some("SLOW".to_string()), ..Default::default() });
    assert_eq!(other_case.total_count, 0);
}

#[test]
fn test_pattern_operations() {
    let mut analyzer = LogAnalyzer::new(LogAnalyzerConfig::default());
    analyzer.start();
    let pattern = LogPattern {
        id: "test_pattern".to_string(),
        name: "테스트 패턴".to_string(),
        pattern: "test".to_string(),
        description: "테스트용 패턴".to_string(),
        severity: LogLevel::Info,
        is_active: true,
        match_count: 0,
        last_matched: None,
    };
    assert!(analyzer.add_pattern(pattern.clone()).is_ok());
    assert!(analyzer.get_patterns().len() > 0);
    assert_eq!(analyzer.add_pattern(pattern), Err("패턴이 이미 존재합니다: test_pattern".to_string()));
    assert!(analyzer.toggle_pattern("test_pattern").is_ok());
    assert!(analyzer.toggle_pattern("test_pattern").is_ok());
    assert!(analyzer.remove_pattern("test_pattern").is_ok());
    assert_eq!(analyzer.remove_pattern("test_pattern"), Err("패턴을 찾을 수 없습니다: test_pattern".to_string()));
    analyzer.stop();
}

#[test]
fn test_notification_system_creation() {
    let system = NotificationSystem::new(NotificationConfig::default());
    assert_eq!(system.queue_size(), 0);
}

#[test]
fn test_notification_sending() {
    let mut system = NotificationSystem::new(NotificationConfig::default());
    let result = system.send_notification(
        "테스트 알림".to_string(),
        "테스트 내용".to_string(),
        NotificationChannel::Console,
        NotificationPriority::Normal,
        NotificationType::Custom,
    );
    assert!(result.is_ok());
    assert_eq!(system.queue_size(), 1);
    let batch = system.take_batch();
    assert_eq!(batch.len(), 1);
    assert_eq!(batch[0].title, "테스트 알림");
}

#[test]
fn test_rate_limiting() {
    let config = NotificationConfig { rate_limit_per_minute: 2, ..Default::default() };
    let mut system = NotificationSystem::new(config);
    let send = |s: &mut NotificationSystem, n: u32| {
        s.send_notification(format!("알림 {}", n), format!("내용 {}", n), NotificationChannel::Console,
            NotificationPriority::Normal, NotificationType::Custom)
    };
    assert!(send(&mut system, 1).is_ok());
    assert!(send(&mut system, 2).is_ok());
    assert!(send(&mut system, 3).is_err());
}

#[test]
fn test_deduplication() {
    let config = NotificationConfig { enable_deduplication: true, ..Default::default() };
    let mut system = NotificationSystem::new(config);
    let r1 = system.send_notification("중복 테스트".to_string(), "동일한 내용".to_string(), NotificationChannel::Console,
        NotificationPriority::Normal, NotificationType::Custom);
    assert!(r1.is_ok());
    let r2 = system.send_notification("중복 테스트".to_string(), "동일한 내용".to_string(), NotificationChannel::Console,
        NotificationPriority::Normal, NotificationType::Custom);
    assert!(r2.is_err());
}

#[test]
fn rate_limiter_window_slides() {
    let mut limiter = RateLimiter::new(2, 1000);
    assert!(limiter.can_send_at(0));
    assert!(limiter.can_send_at(10));
    assert!(!limiter.can_send_at(999));
    assert!(limiter.can_send_at(1000));
}

#[test]
fn handlers_report_channel_and_readiness() {
    assert_eq!(ConsoleNotificationHandler.get_channel(), NotificationChannel::Console);
    assert!(ConsoleNotificationHandler.is_enabled());
    let email = EmailNotificationHandler::new(String::new(), "a@b".to_string());
    assert_eq!(email.get_channel(), NotificationChannel::Email);
    assert!(!email.is_enabled());
}

fn check(t: ServiceType, status: HealthStatus, rt: u64, high: bool) -> ServiceCheck {
    ServiceCheck {
        service_type: t,
        status,
        message: "m".to_string(),
        response_time_ms: rt,
        last_check: 0,
        consecutive_failures: 0,
        error_rate_high: high,
    }
}

#[test]
fn system_health_test_health_monitor_creation() {
    let monitor = SystemHealthMonitor::new(HealthCheckConfig::default(), 100);
    let system_health = monitor.get_system_health(0, 100);
    assert_eq!(system_health.total_services, 0);
    assert_eq!(system_health.healthy_services, 0);
    assert_eq!(system_health.overall_status, HealthStatus::Unknown);
    assert_eq!(system_health.recommendations, vec!["모든 서비스가 정상 동작 중입니다.".to_string()]);
}

#[test]
fn test_service_health_check() {
    let mut monitor = SystemHealthMonitor::new(HealthCheckConfig::default(), 0);
    assert!(monitor.start());
    assert_eq!(monitor.record_check(check(ServiceType::Database, HealthStatus::Healthy, 10, false)), None);
    let system_health = monitor.get_system_health(5, 7);
    assert!(system_health.total_services > 0);
    assert_eq!(system_health.system_uptime_seconds, 7);
    monitor.stop();
}

#[test]
fn system_health_notices_and_recommendations() {
    let mut monitor = SystemHealthMonitor::new(HealthCheckConfig::default(), 0);
    monitor.record_check(check(ServiceType::Kafka, HealthStatus::Healthy, 10, false));
    let notice = monitor.record_check(check(ServiceType::Kafka, HealthStatus::Critical, 2000, true));
    assert_eq!(notice, Some("서비스 상태 변경: Kafka - Healthy → Critical".to_string()));
    let h = monitor.get_system_health(0, 0);
    assert_eq!(h.overall_status, HealthStatus::Critical);
    assert_eq!(h.total_services, 1);
    assert_eq!(h.critical_services, 1);
    assert_eq!(h.recommendations, vec![
        "Kafka 서비스가 위험 상태입니다. 즉시 확인이 필요합니다.".to_string(),
        "Kafka 서비스의 응답시간이 느립니다. 성능 최적화를 고려하세요.".to_string(),
        "Kafka 서비스의 에러율이 높습니다. 로그를 확인하세요.".to_string(),
    ]);
    assert_eq!(monitor.get_service_health("Kafka").unwrap().response_time_ms, 2000);
    assert!(monitor.get_service_health("Redis").is_none());
}

#[test]
fn test_health_status_conversion() {
    assert_eq!(SystemHealthMonitor::status_to_string(&HealthStatus::Healthy), "Healthy");
    assert_eq!(SystemHealthMonitor::status_to_string(&HealthStatus::Warning), "Warning");
    assert_eq!(SystemHealthMonitor::status_to_string(&HealthStatus::Critical), "Critical");
    assert_eq!(SystemHealthMonitor::status_to_string(&HealthStatus::Unknown), "Unknown");
}

#[test]
fn test_service_type_conversion() {
    assert_eq!(SystemHealthMonitor::service_type_to_string(&ServiceType::Database), "Database");
    assert_eq!(SystemHealthMonitor::service_type_to_string(&ServiceType::Redis), "Redis");
    assert_eq!(SystemHealthMonitor::service_type_to_string(&ServiceType::Kafka), "Kafka");
}

#[test]
fn analysis_counts_by_level_module_and_hour() {
    let mut analyzer = LogAnalyzer::new(LogAnalyzerConfig::default());
    let mut later = entry("2", LogLevel::Warn, "slow", "api", "t");
    later.timestamp = 1_700_003_600_000;
    analyzer.add_log_entry(entry("1", LogLevel::Error, "boom", "engine", "t"));
    analyzer.add_log_entry(later);
    analyzer.add_log_entry(entry("3", LogLevel::Info, "ok", "engine", "t"));
    assert!(analyzer.can_count_hours());
    assert!(analyzer.can_match_patterns());
    analyzer.run_analysis(1_700_003_700_000);
    let counts = analyzer.get_counts();
    assert_eq!(counts.total_entries, 3);
    assert_eq!(counts.entries_by_hour.get("2023-11-14 22:00"), Some(&2));
    assert_eq!(counts.entries_by_hour.get("2023-11-14 23:00"), Some(&1));
    assert_eq!(counts.entries_by_module.get("engine"), Some(&2));
    assert_eq!(counts.entries_by_level.get("Warn"), Some(&1));
    assert_eq!((counts.error_count, counts.warning_count, counts.unique_modules), (1, 1, 2));
    assert_eq!(counts.total_message_length, 10);
    assert_eq!(counts.last_updated, 1_700_003_700_000);
}

#[test]
fn hours_past_the_last_date_are_refused() {
    let mut analyzer = LogAnalyzer::new(LogAnalyzerConfig::default());
    let mut far = entry("1", LogLevel::Info, "far", "m", "t");
    far.timestamp = 8_210_266_876_800_000;
    analyzer.add_log_entry(far);
    assert!(!analyzer.can_count_hours());
}

#[test]
fn status_change_notification_text() {
    let monitor = SystemHealthMonitor::new(HealthCheckConfig::default(), 0);
    let (message, kind) =
        monitor.send_status_change_notification("Kafka", &HealthStatus::Healthy, &HealthStatus::Critical, 1234);
    assert_eq!(message, "서비스 상태 변경 알림\n서비스: Kafka\n이전 상태: Healthy\n현재 상태: Critical\n시간: 1234");
    assert_eq!(kind, "status_change");
}

fn notice(id: &str, channel: NotificationChannel, retry_count: u32) -> NotificationMessage {
    NotificationMessage {
        id: id.to_string(),
        title: format!("title {}", id),
        content: "body".to_string(),
        channel,
        priority: NotificationPriority::High,
        notification_type: NotificationType::ErrorAlert,
        timestamp: 1,
        retry_count,
        max_retries: 3,
        metadata: HashMap::new(),
    }
}

#[test]
fn delivery_steps_follow_handlers_and_limits() {
    let mut system = NotificationSystem::new(NotificationConfig::default());
    assert!(system.can_deliver(NotificationChannel::Console));
    assert!(!system.can_deliver(NotificationChannel::Slack));
    match system.process_message(notice("a", NotificationChannel::Console, 0), 1000) {
        DeliveryStep::Send(m) => assert_eq!(m.id, "a"),
        other => panic!("unexpected step {:?}", other),
    }
    assert!(matches!(system.process_message(notice("b", NotificationChannel::Slack, 0), 1000), DeliveryStep::Skip));
    system.register_handler(&SlackNotificationHandler::new(String::new(), "ops".to_string()));
    assert!(!system.can_deliver(NotificationChannel::Slack));
    system.register_handler(&SlackNotificationHandler::new("https://hooks".to_string(), "ops".to_string()));
    assert!(system.can_deliver(NotificationChannel::Slack));
    assert!(matches!(system.process_message(notice("a", NotificationChannel::Console, 0), 1000), DeliveryStep::Skip));
}

#[test]
fn delivery_outcomes_are_counted_and_retried() {
    let mut system = NotificationSystem::new(NotificationConfig::default());
    system.record_delivery(notice("a", NotificationChannel::Console, 0), true);
    system.record_delivery(notice("b", NotificationChannel::Email, 0), false);
    system.record_delivery(notice("c", NotificationChannel::Email, 3), false);
    let counts = system.get_stats();
    assert_eq!(counts.totals(), (1, 2));
    assert_eq!(counts.channel_counts(NotificationChannel::Console), (1, 0));
    assert_eq!(counts.channel_counts(NotificationChannel::Email), (0, 2));
    assert_eq!(counts.priority_count(NotificationPriority::High), 1);
    assert_eq!(counts.type_count(NotificationType::ErrorAlert), 1);
    assert_eq!(counts.last_24h(), (1, 2));
    assert_eq!(system.queue_size(), 1);
    let batch = system.take_batch();
    assert_eq!(batch[0].id, "b");
    assert_eq!(batch[0].retry_count, 1);
}

#[test]
fn rate_limited_message_goes_back() {
    let mut config = NotificationConfig::default();
    config.rate_limit_per_minute = 0;
    let mut system = NotificationSystem::new(config);
    assert!(matches!(system.process_message(notice("a", NotificationChannel::Console, 0), 5), DeliveryStep::Stop));
    assert_eq!(system.queue_size(), 1);
}

#[test]
fn text_index_splits_on_unicode_white_space() {
    let entries = vec![entry("e1", LogLevel::Info, "Order\u{3000}Matched\tnow ok", "engine", "t")];
    let indexes = build_indexes(&entries, 5);
    assert_eq!(indexes.by_text.get("order"), Some(&vec!["e1".to_string()]));
    assert_eq!(indexes.by_text.get("matched"), Some(&vec!["e1".to_string()]));
    assert_eq!(indexes.by_text.get("now"), Some(&vec!["e1".to_string()]));
    assert_eq!(indexes.by_text.get("ok"), None);
    assert_eq!(indexes.last_indexed, 5);
}
