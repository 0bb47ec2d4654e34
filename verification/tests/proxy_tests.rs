use gsc_fq::error::ProxyError;
use gsc_fq::pool::{blackhole_failure_threshold, PoolStats as BackendPoolStats};
use gsc_fq::selector::{
    best_quality_index, least_loaded_index, pool_index, weighted_index, ConnectionSelectionStrategy,
    ConnectionSelector, PoolStats as TunnelPoolStats, SelectionStrategy,
};
use gsc_fq::stealth::{
    blackhole_keeps_reading, is_connection_reset, pseudo_random_from_seed, pseudo_random_range,
    ConnectFailure, IoErrorKind, ReadOutcome, SecurityState, StealthConnectionCounters, StealthHandler,
};
use gsc_fq::transfer::{
    after_sample_read, analyze_traffic_pattern, format_size, optimal_buffer_size, CopyProgress, Platform,
    SampleState, TransferStrategy,
};

#[test]
fn test_optimal_buffer_size_selection() {
    assert_eq!(optimal_buffer_size(100 * 1024, Platform::Linux), 8 * 1024);
    assert_eq!(optimal_buffer_size(200 * 1024, Platform::Linux), 8 * 1024);
    assert!(optimal_buffer_size(1 * 1024 * 1024, Platform::Linux) >= 128 * 1024);
    assert!(optimal_buffer_size(10 * 1024 * 1024, Platform::Linux) >= 128 * 1024);
}

#[test]
fn test_strategy_selection() {
    let strategy_small = analyze_traffic_pattern(&[0u8; 4 * 1024], 4 * 1024, true, Platform::Linux);
    match strategy_small {
        TransferStrategy::SmallPacket { .. } => {}
        _ => panic!("Expected SmallPacket strategy"),
    }
    let strategy_burst = analyze_traffic_pattern(&[0u8; 32 * 1024], 32 * 1024, false, Platform::Linux);
    match strategy_burst {
        TransferStrategy::BurstTraffic { .. } => {}
        _ => panic!("Expected BurstTraffic strategy"),
    }
    let strategy_stream = analyze_traffic_pattern(&[0u8; 128 * 1024], 128 * 1024, false, Platform::Linux);
    match strategy_stream {
        TransferStrategy::ContinuousStream { .. } => {}
        _ => panic!("Expected ContinuousStream strategy"),
    }
}

#[test]
fn strategy_sizes_for_each_window() {
    assert_eq!(
        analyze_traffic_pattern(&[0u8; 8], 8, true, Platform::Linux),
        TransferStrategy::SmallPacket { buffer_size: 8 * 1024 }
    );
    assert_eq!(
        analyze_traffic_pattern(&[0u8; 8], 8, false, Platform::Linux),
        TransferStrategy::SmallPacket { buffer_size: 16 * 1024 }
    );
    assert_eq!(
        analyze_traffic_pattern(&[0u8; 8], 16 * 1024, false, Platform::Linux),
        TransferStrategy::BurstTraffic { buffer_size: 64 * 1024, flush_interval: 128 * 1024 }
    );
    assert_eq!(
        analyze_traffic_pattern(&[0u8; 8], 64 * 1024, false, Platform::Linux),
        TransferStrategy::ContinuousStream { buffer_size: 128 * 1024, flush_interval: 4 * 1024 * 1024 }
    );
}

#[test]
fn test_format_size() {
    assert_eq!(format_size(1024), "1KB");
    assert_eq!(format_size(1024 * 1024), "1MB");
    assert_eq!(format_size(512), "512B");
}

#[test]
fn format_size_rounds_down() {
    assert_eq!(format_size(0), "0B");
    assert_eq!(format_size(1023), "1023B");
    assert_eq!(format_size(1536), "1KB");
    assert_eq!(format_size(5 * 1024 * 1024 + 7), "5MB");
}

#[test]
fn copy_progress_flushes_on_interval_and_short_reads() {
    let mut p = CopyProgress::for_bulk_copy(128 * 1024);
    assert_eq!(p.flush_interval, 2 * 1024 * 1024);
    assert!(!p.after_write(128 * 1024, 128 * 1024));
    assert!(p.after_write(100, 128 * 1024));
    assert_eq!(p.last_flush, p.total);
    assert!(!p.at_end());
    let mut q = CopyProgress::new(0, 1000, false);
    assert!(!q.after_write(10, 10));
    assert!(q.at_end());
    assert!(q.after_write(990, 10));
    assert!(!q.at_end());
}

#[test]
fn sample_reading_stops_at_end_or_full_window() {
    assert_eq!(after_sample_read(10, 0), SampleState::Done { size: 10, ended: true });
    assert_eq!(after_sample_read(0, 1000), SampleState::Reading(1000));
    assert_eq!(after_sample_read(32 * 1024 - 5, 5), SampleState::Done { size: 32 * 1024, ended: false });
}

#[test]
fn test_connection_reset_detection() {
    assert!(is_connection_reset(IoErrorKind::ConnectionReset));
    assert!(is_connection_reset(IoErrorKind::ConnectionRefused));
    assert!(!is_connection_reset(IoErrorKind::Other));
}

#[test]
fn connection_aborted_counts_as_reset_but_broken_pipe_does_not() {
    assert!(is_connection_reset(IoErrorKind::ConnectionAborted));
    assert!(!is_connection_reset(IoErrorKind::BrokenPipe));
    assert!(StealthHandler::is_io_rejection(IoErrorKind::BrokenPipe));
    assert!(!StealthHandler::is_io_rejection(IoErrorKind::TimedOut));
}

#[test]
fn test_rejection_detection() {
    let reset_err = ProxyError::ForwardingFailed("connection refused".to_string());
    let timeout_err = ProxyError::ForwardingFailed("Server timeout".to_string());
    let other_err = ProxyError::ForwardingFailed("unknown error".to_string());
    assert!(StealthHandler::is_rejection(&reset_err));
    assert!(StealthHandler::is_rejection(&timeout_err));
    assert!(!StealthHandler::is_rejection(&other_err));
}

#[test]
fn rejection_needs_a_forwarding_error() {
    let e = ProxyError::StartupFailed("connection refused".to_string());
    assert!(!StealthHandler::is_rejection(&e));
    assert!(StealthHandler::is_connection_error_rejection("the connection dropped"));
    assert!(!StealthHandler::is_connection_error_rejection("no route to host"));
}

#[test]
fn connect_errors_lead_to_blackhole_or_failure() {
    assert!(matches!(
        StealthHandler::on_connect_error(IoErrorKind::ConnectionRefused, "x"),
        ConnectFailure::Blackhole
    ));
    assert!(matches!(
        StealthHandler::on_connect_error(IoErrorKind::Other, "connection reset by peer"),
        ConnectFailure::Blackhole
    ));
    match StealthHandler::on_connect_error(IoErrorKind::NotFound, "no route to host") {
        ConnectFailure::Fail(ProxyError::ForwardingFailed(m)) => {
            assert_eq!(m, "Connection failed: no route to host")
        }
        _ => panic!("expected a failure"),
    }
}

#[test]
fn blackhole_delays_stay_in_range() {
    for _ in 0..20 {
        let s = StealthHandler::blackhole_seconds();
        assert!((5..=30).contains(&s));
        let r = pseudo_random_range(120, 1800);
        assert!((120..=1800).contains(&r));
    }
}

#[test]
fn seeded_generator_matches_formula() {
    let seed: u64 = 123456789;
    let expected = 1664525u64.wrapping_mul(seed).wrapping_add(1013904223) % (1u64 << 32);
    assert_eq!(pseudo_random_from_seed(seed, 10, 20), 10 + expected % 11);
    assert_eq!(pseudo_random_from_seed(0, 0, 0), 0);
}

#[test]
fn blackhole_reading_rules() {
    assert!(blackhole_keeps_reading(ReadOutcome::Data(10), false));
    assert!(!blackhole_keeps_reading(ReadOutcome::Closed, true));
    assert!(blackhole_keeps_reading(ReadOutcome::Failed(IoErrorKind::WouldBlock), true));
    assert!(!blackhole_keeps_reading(ReadOutcome::Failed(IoErrorKind::WouldBlock), false));
    assert!(!blackhole_keeps_reading(ReadOutcome::Failed(IoErrorKind::ConnectionReset), true));
}

#[test]
fn stealth_connection_handler_test_connection_stats() {
    let mut stats = StealthConnectionCounters::new();
    stats.total_connections = 10;
    stats.successful_connections = 8;
    stats.failed_connections = 2;
    let snapshot = stats.snapshot();
    assert_eq!(snapshot.total_connections, 10);
    assert_eq!(snapshot.successful_connections, 8);
    assert_eq!(snapshot.failed_connections, 2);
}

#[test]
fn counters_follow_connection_lifecycle() {
    let mut c = StealthConnectionCounters::new();
    c.record_opened();
    c.record_opened();
    c.record_finished(true);
    c.record_finished(false);
    assert_eq!(c.total_connections(), 2);
    assert_eq!(c.successful_connections(), 1);
    assert_eq!(c.failed_connections(), 1);
    assert_eq!(c.active_connections(), 1);
}

#[test]
fn acl_refuses_unlisted_addresses() {
    let mut s = SecurityState::new(Some(vec!["10.0.0.1".to_string()]), None, None);
    assert!(s.check("10.0.0.1", 1, 0).is_ok());
    match s.check("10.0.0.2", 2, 0) {
        Err(ProxyError::ForwardingFailed(m)) => assert_eq!(m, "IP 10.0.0.2 not in allow list"),
        _ => panic!("expected refusal"),
    }
    let mut open = SecurityState::new(Some(vec!["0.0.0.0/0".to_string()]), None, None);
    assert!(open.check("192.168.1.1", 3, 0).is_ok());
}

#[test]
fn max_connections_per_address_is_enforced() {
    let mut s = SecurityState::new(None, Some(2), None);
    assert!(s.check("1.2.3.4", 7, 0).is_ok());
    assert!(s.check("1.2.3.4", 7, 0).is_ok());
    match s.check("1.2.3.4", 7, 0) {
        Err(ProxyError::ForwardingFailed(m)) => assert_eq!(m, "Max connections per IP reached for 1.2.3.4"),
        _ => panic!("expected refusal"),
    }
    assert!(s.check("5.6.7.8", 8, 0).is_ok());
    s.register_disconnection(7);
    assert!(s.check("1.2.3.4", 7, 0).is_ok());
}

#[test]
fn rate_limit_counts_the_last_second() {
    let mut s = SecurityState::new(None, None, Some(2));
    assert!(s.check("9.9.9.9", 9, 1_000).is_ok());
    assert!(s.check("9.9.9.9", 9, 2_000).is_ok());
    match s.check("9.9.9.9", 9, 3_000) {
        Err(ProxyError::ForwardingFailed(m)) => assert_eq!(m, "Connection rate limit exceeded for 9.9.9.9"),
        _ => panic!("expected refusal"),
    }
    assert!(s.check("9.9.9.9", 9, 1_000_001_500).is_ok());
}

#[test]
fn test_strategy_from_str() {
    assert_eq!(SelectionStrategy::from_str("best_quality"), Some(SelectionStrategy::BestQuality));
    assert_eq!(SelectionStrategy::from_str("WEIGHTED_RANDOM"), Some(SelectionStrategy::WeightedRandom));
    assert_eq!(SelectionStrategy::from_str("roundrobin"), Some(SelectionStrategy::RoundRobin));
    assert_eq!(SelectionStrategy::from_str("invalid"), None);
}

#[test]
fn strategy_short_names_and_default() {
    assert_eq!(SelectionStrategy::from_str("Least"), Some(SelectionStrategy::LeastConnections));
    assert_eq!(SelectionStrategy::from_str("best"), Some(SelectionStrategy::BestQuality));
    assert_eq!(SelectionStrategy::default(), SelectionStrategy::BestQuality);
}

#[test]
fn best_quality_takes_first_highest_score() {
    let mut pool = vec!["a", "b", "c"];
    let scores = vec![50u8, 90, 70];
    let mut turn = 0usize;
    let picked = ConnectionSelector::select(&mut pool, &scores, SelectionStrategy::BestQuality, &mut turn);
    assert_eq!(picked, Some("b"));
    assert_eq!(pool.len(), 2);
    assert_eq!(best_quality_index(&vec![7u8, 9, 9, 1]), 1);
}

#[test]
fn round_robin_advances_its_turn() {
    let mut pool = vec![50u8, 60, 70];
    let scores = pool.clone();
    let mut index = 0usize;
    let first = ConnectionSelector::select(&mut pool, &scores, SelectionStrategy::RoundRobin, &mut index);
    assert_eq!(first, Some(50));
    assert_eq!(pool.len(), 2);
    assert_eq!(index, 1);
    let scores2 = pool.clone();
    let _ = ConnectionSelector::select(&mut pool, &scores2, SelectionStrategy::RoundRobin, &mut index);
    assert_eq!(pool.len(), 1);
    assert_eq!(index, 0);
}

#[test]
fn weighted_pick_walks_the_scores() {
    let scores = vec![0u8, 10, 5];
    assert_eq!(weighted_index(&scores, 0), 1);
    assert_eq!(weighted_index(&scores, 9), 1);
    assert_eq!(weighted_index(&scores, 10), 2);
    assert_eq!(weighted_index(&scores, 100), 2);
    let mut pool = vec![1, 2, 3];
    let mut turn = 0usize;
    let picked = ConnectionSelector::select(&mut pool, &scores, SelectionStrategy::WeightedRandom, &mut turn);
    assert!(picked == Some(2) || picked == Some(3));
}

#[test]
fn empty_pool_gives_nothing() {
    let mut pool: Vec<u8> = Vec::new();
    let mut turn = 3usize;
    assert_eq!(ConnectionSelector::select(&mut pool, &vec![], SelectionStrategy::RoundRobin, &mut turn), None);
    assert_eq!(turn, 3);
}

#[test]
fn test_strategy_default() {
    let strategy = ConnectionSelectionStrategy::default();
    assert!(matches!(strategy, ConnectionSelectionStrategy::RoundRobin));
}

#[test]
fn tunnel_pool_picks_and_totals() {
    let loads = vec![3usize, 1, 1];
    assert_eq!(least_loaded_index(&loads), 1);
    assert_eq!(pool_index(ConnectionSelectionStrategy::RoundRobin, 7, &loads), 1);
    assert_eq!(pool_index(ConnectionSelectionStrategy::LeastLoaded, 7, &loads), 1);
    assert!(pool_index(ConnectionSelectionStrategy::Random, 7, &loads) < 3);
    let stats = TunnelPoolStats::collect(1, &loads, &vec![true, false, true]);
    assert_eq!(stats.pool_size, 1);
    assert_eq!(stats.total_streams, 5);
    assert_eq!(stats.active_connections, 2);
}

#[test]
fn backend_pool_marks_blackhole_after_streak() {
    let mut s = BackendPoolStats::default();
    assert!(s.refusal().is_none());
    assert!(!s.record_failure(3));
    assert!(!s.record_failure(3));
    s.record_connected();
    assert_eq!(s.consecutive_failures, 0);
    assert!(!s.record_failure(3));
    assert!(!s.record_failure(3));
    assert!(s.record_failure(3));
    assert!(s.is_blackhole);
    s.record_connected();
    assert!(s.is_blackhole);
    match s.refusal() {
        Some(ProxyError::ConnectionPoolError(m)) => {
            assert_eq!(m, "Target server is marked as blackhole (unreachable)")
        }
        _ => panic!("expected refusal"),
    }
    let snap = s.snapshot();
    assert_eq!(snap.connection_failures, 5);
    assert_eq!(snap.total_created, 2);
}

#[test]
fn blackhole_threshold_from_configuration() {
    assert_eq!(blackhole_failure_threshold(None), 3);
    assert_eq!(blackhole_failure_threshold(Some("7")), 7);
    assert_eq!(blackhole_failure_threshold(Some("+5")), 5);
    assert_eq!(blackhole_failure_threshold(Some("x")), 3);
    assert_eq!(blackhole_failure_threshold(Some("4294967296")), 3);
}

#[test]
fn active_connections_are_reported_per_address() {
    let mut s = SecurityState::new(None, Some(5), None);
    assert_eq!(s.active_connections(7), 0);
    assert!(s.check("1.2.3.4", 7, 0).is_ok());
    assert!(s.check("1.2.3.4", 7, 0).is_ok());
    assert_eq!(s.active_connections(7), 2);
    s.register_disconnection(7);
    assert_eq!(s.active_connections(7), 1);
    assert_eq!(s.active_connections(8), 0);
}

#[test]
fn buffer_sizes_follow_the_platform() {
    for platform in [Platform::MacOs, Platform::Windows] {
        assert_eq!(optimal_buffer_size(100 * 1024, platform), 8 * 1024);
        assert_eq!(optimal_buffer_size(1024 * 1024, platform), 256 * 1024);
        assert_eq!(
            analyze_traffic_pattern(&[0u8; 8], 32 * 1024, false, platform),
            TransferStrategy::BurstTraffic { buffer_size: 128 * 1024, flush_interval: 256 * 1024 }
        );
        assert_eq!(
            analyze_traffic_pattern(&[0u8; 8], 64 * 1024, false, platform),
            TransferStrategy::ContinuousStream { buffer_size: 256 * 1024, flush_interval: 4 * 1024 * 1024 }
        );
    }
    assert_eq!(optimal_buffer_size(1024 * 1024, Platform::Other), 128 * 1024);
    assert_eq!(
        analyze_traffic_pattern(&[0u8; 8], 64 * 1024, false, Platform::Other),
        TransferStrategy::ContinuousStream { buffer_size: 256 * 1024, flush_interval: 4 * 1024 * 1024 }
    );
    assert_eq!(
        analyze_traffic_pattern(&[0u8; 8], 8, true, Platform::MacOs),
        TransferStrategy::SmallPacket { buffer_size: 8 * 1024 }
    );
}

#[test]
fn weighted_pick_with_no_score_takes_any() {
    let mut pool = vec![1, 2, 3];
    let scores = vec![0u8, 0, 0];
    let mut turn = 7usize;
    let picked = ConnectionSelector::select(&mut pool, &scores, SelectionStrategy::WeightedRandom, &mut turn);
    assert!(matches!(picked, Some(1) | Some(2) | Some(3)));
    assert_eq!(pool.len(), 2);
    assert_eq!(turn, 7);
}
