use gsc_fq::error::{AppError, ConfigError, ErrorExt, ErrorSeverity, NetworkError, SystemError};
use gsc_fq::status::{
    average_handshake_time_us, check_system_requirements, is_container_cgroup, optimal_cipher_suite,
    optimize_system_settings, ClientHandshake, ConnectionTotals, EnhancedPoolStats, ErrorEvent, ErrorLog,
    HandlerFigures, PoolStats, ServiceStatus, SystemInfo, TimeoutConfig,
};

#[test]
fn test_handshake_creation() {
    let client = ClientHandshake::new("test-token".to_string(), "config-hash".to_string());
    assert_eq!(client.auth_token(), "test-token");
    assert_eq!(client.config_hash(), "config-hash");
}

#[test]
fn test_check_system_requirements() {
    let result = check_system_requirements();
    assert!(result.is_ok());
}

#[test]
fn test_optimize_system_settings() {
    let result = optimize_system_settings();
    assert!(result.is_ok());
}

#[test]
fn test_error_severity() {
    let fatal_error = AppError::Config(ConfigError::InvalidIpAddress("test".to_string()));
    assert_eq!(fatal_error.severity(), ErrorSeverity::Fatal);
    let warning_error = AppError::Network(NetworkError::ConnectionClosed);
    assert_eq!(warning_error.severity(), ErrorSeverity::Warning);
}

#[test]
fn test_recoverable_errors() {
    let recoverable = AppError::Network(NetworkError::ConnectionTimeout);
    assert!(recoverable.is_recoverable());
    let non_recoverable = AppError::System(SystemError::InsufficientFileDescriptors);
    assert!(!non_recoverable.is_recoverable());
}

#[test]
fn error_texts_match_their_display() {
    let e = AppError::Config(ConfigError::PortBindError(80, "busy".to_string()));
    assert_eq!(e.message(), "Configuration error: Cannot bind to port 80: busy");
    assert_eq!(AppError::Network(NetworkError::InvalidBufferSize(42)).message(), "Network error: Invalid buffer size: 42");
    assert_eq!(AppError::internal("boom").message(), "Internal error: boom");
    assert!(!AppError::Config(ConfigError::InsufficientPrivileges(80)).is_recoverable());
    assert_eq!(AppError::Io("disk".to_string()).severity(), ErrorSeverity::Error);
}

#[test]
fn errors_gain_context() {
    let r: Result<(), AppError> = Err(AppError::Network(NetworkError::ConnectionReset));
    match r.with_context("while relaying") {
        Err(AppError::Internal { message }) => assert_eq!(message, "while relaying: Network error: Connection reset"),
        _ => panic!("expected an internal error"),
    }
    let ok: Result<u8, AppError> = Ok(5);
    assert_eq!(ok.internal_error().unwrap(), 5);
}

#[test]
fn service_status_words() {
    assert_eq!(ServiceStatus::Running.as_str(), "running");
    assert_eq!(ServiceStatus::NotInstalled.as_str(), "not installed");
    assert_eq!(ServiceStatus::Stopped.emoji(), "⏸️");
}

#[test]
fn timeout_presets() {
    let d = TimeoutConfig::default();
    assert_eq!((d.read_timeout, d.write_timeout, d.idle_timeout, d.connect_timeout), (30, 10, 60, 10));
    let i = TimeoutConfig::interactive();
    assert_eq!((i.read_timeout, i.write_timeout, i.idle_timeout, i.connect_timeout), (10, 5, 30, 5));
    let p = TimeoutConfig::persistent();
    assert_eq!((p.read_timeout, p.write_timeout, p.idle_timeout, p.connect_timeout), (300, 30, 600, 30));
}

#[test]
fn cipher_choice() {
    assert_eq!(optimal_cipher_suite(true), "TLS_AES_256_GCM_SHA384 (AES-NI hardware acceleration)");
    assert_eq!(optimal_cipher_suite(false), "TLS_AES_128_GCM_SHA256 (ChaCha20 fallback for ARM/no-AES)");
}

#[test]
fn system_info_summary() {
    let s = SystemInfo { os: "linux".into(), arch: "x86_64".into(), target_env: "linux".into(), family: "unix".into() };
    let t = s.summary();
    assert!(t.contains("OS:"));
    assert!(t.contains("Architecture:"));
    assert_eq!(t, "System Information:\n- OS: linux\n- Architecture: x86_64\n- Environment: linux\n- Family: unix");
}

#[test]
fn handler_pool_totals() {
    let p = PoolStats::from_limits(&vec![10, 50]);
    assert_eq!(p.total_handlers, 2);
    assert_eq!(p.total_max_connections, 60);
    assert_eq!(p.total_available_slots, 60);
    assert_eq!(PoolStats::from_limits(&vec![]).total_max_connections, usize::MAX);
    assert_eq!(PoolStats::from_limits(&vec![usize::MAX, 3]).total_max_connections, usize::MAX);
    assert_eq!(
        p.summary(),
        "Connection Pool Stats:\n- Total Handlers: 2\n- Total Max Connections: 60\n- Total Active Connections: 0\n- Total Available Slots: 60"
    );
    let e = EnhancedPoolStats::collect(&vec![
        HandlerFigures { max_connections: 10, active_connections: 2, available_slots: 8, active_sessions: 1, is_healthy: true },
        HandlerFigures { max_connections: 5, active_connections: 5, available_slots: 0, active_sessions: 3, is_healthy: false },
    ]);
    assert_eq!(e.total_max_connections, 15);
    assert_eq!(e.total_active_connections, 7);
    assert_eq!(e.total_available_slots, 8);
    assert_eq!(e.total_sessions, 4);
    assert!(!e.all_healthy);
    assert!(e.summary().contains("- All Healthy: false\n- Total Active Sessions: 4"));
}

#[test]
fn error_log_keeps_the_last_hundred() {
    let mut log = ErrorLog::new();
    for i in 0..105u64 {
        log.record(ErrorEvent { timestamp: i, error_type: "T".into(), error_message: "m".into(), context: vec![] });
    }
    assert_eq!(log.total_errors(), 105);
    assert_eq!(log.recent_len(), 100);
    assert_eq!(log.recent_at(0).timestamp, 5);
    assert_eq!(log.recent_at(99).timestamp, 104);
}

#[test]
fn container_runtimes_are_recognised_in_cgroups() {
    assert!(is_container_cgroup("12:pids:/docker/abc\n"));
    assert!(is_container_cgroup("0::/system.slice/containerd.service"));
    assert!(!is_container_cgroup("0::/init.scope\n"));
    assert!(!is_container_cgroup(""));
}

#[test]
fn average_handshake_time_rounds_down() {
    assert_eq!(average_handshake_time_us(0, 0), 0);
    assert_eq!(average_handshake_time_us(500, 0), 0);
    assert_eq!(average_handshake_time_us(1000, 3), 333);
    assert_eq!(average_handshake_time_us(1200, 2), 600);
}

#[test]
fn test_monitoring_system_creation() {
    let connections = ConnectionTotals::new();
    assert_eq!(connections.total_connections, 0);
    assert_eq!(connections.active_connections, 0);
}

#[test]
fn test_connection_tracking() {
    let mut connections = ConnectionTotals::new();
    connections.record_connection_established();
    assert_eq!(connections.total_connections, 1);
    assert_eq!(connections.active_connections, 1);
    connections.record_connection_closed(1000);
    assert_eq!(connections.active_connections, 0);
}

#[test]
fn test_error_tracking() {
    let mut log = ErrorLog::new();
    log.record(ErrorEvent {
        timestamp: 0,
        error_type: "TestError".to_string(),
        error_message: "Test error message".to_string(),
        context: vec![("test_key".to_string(), "test_value".to_string())],
    });
    assert_eq!(log.total_errors(), 1);
    assert_eq!(log.recent_len(), 1);
    assert_eq!(log.errors_of_type("TestError"), 1);
}

#[test]
fn mean_connection_duration_is_a_running_mean() {
    let mut c = ConnectionTotals::new();
    c.record_connection_closed(500);
    assert_eq!(c.avg_connection_duration_ms, 0);
    assert_eq!(c.active_connections, 0);
    c.record_connection_established();
    c.record_connection_closed(1000);
    assert_eq!(c.avg_connection_duration_ms, 1000);
    c.record_connection_established();
    c.record_connection_closed(2001);
    assert_eq!(c.avg_connection_duration_ms, 1500);
    c.record_connection_failed();
    c.record_data_transfer(10, 2);
    c.record_data_transfer(5, 1);
    assert_eq!((c.failed_connections, c.total_bytes_transferred, c.total_packets_transferred), (1, 15, 3));
}

#[test]
fn errors_are_counted_by_type() {
    let mut log = ErrorLog::new();
    let event = |t: &str| ErrorEvent {
        timestamp: 1,
        error_type: t.to_string(),
        error_message: String::new(),
        context: Vec::new(),
    };
    log.record(event("A"));
    log.record(event("B"));
    log.record(event("A"));
    assert_eq!(log.errors_of_type("A"), 2);
    assert_eq!(log.errors_of_type("B"), 1);
    assert_eq!(log.errors_of_type("C"), 0);
    assert_eq!(log.total_errors(), 3);
}
