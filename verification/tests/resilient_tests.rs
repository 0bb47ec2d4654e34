use gsc_fq::error::{AppError, NetworkError};
use gsc_fq::resilient::{
    adjust_buffer_size, after_connect_attempt, ConnectionQuality, RetryAction, SessionInfo, SessionStore,
};

const MS: u64 = 1_000_000;

#[test]
fn test_connection_quality() {
    let mut quality = ConnectionQuality::new(0);
    quality.record_rtt(100 * MS, 1);
    quality.record_rtt(200 * MS, 2);
    let avg_rtt = quality.get_average_rtt();
    assert!(avg_rtt.is_some());
    assert_eq!(avg_rtt.unwrap(), 150 * MS);
}

#[test]
fn test_session_info() {
    let mut session = SessionInfo::new("127.0.0.1:12345".to_string(), "example.com:80".to_string(), 0);
    session.add_pending_data(b"test data".to_vec(), 5);
    let pending = session.take_pending_data(6);
    assert_eq!(pending.len(), 1);
    assert_eq!(pending[0], b"test data");
}

#[test]
fn rtt_history_keeps_the_last_twenty() {
    let mut quality = ConnectionQuality::new(0);
    assert_eq!(quality.get_average_rtt(), None);
    for i in 1..=25u64 {
        quality.record_rtt(i, i);
    }
    // samples 6..=25 remain: their mean is 15.5, rounded down
    assert_eq!(quality.get_average_rtt(), Some(15));
    quality.record_rtt(3, 30);
    assert_eq!(quality.get_average_rtt(), Some(15));
}

#[test]
fn average_rounds_down_to_the_nanosecond() {
    let mut quality = ConnectionQuality::new(0);
    quality.record_rtt(1, 0);
    quality.record_rtt(2, 0);
    assert_eq!(quality.get_average_rtt(), Some(1));
    quality.record_rtt(u64::MAX, 0);
    assert_eq!(quality.get_average_rtt(), Some(((u64::MAX as u128 + 3) / 3) as u64));
}

#[test]
fn health_needs_few_errors_and_recent_activity() {
    let mut quality = ConnectionQuality::new(1_000);
    assert!(quality.is_healthy(1_000 + 29_999_999_999));
    assert!(!quality.is_healthy(1_000 + 30_000_000_000));
    assert!(quality.is_healthy(0));
    for _ in 0..4 {
        quality.record_error();
    }
    assert!(quality.is_healthy(1_000));
    quality.record_error();
    assert_eq!(quality.error_count(), 5);
    assert!(!quality.is_healthy(1_000));
    quality.reset_errors();
    assert!(quality.is_healthy(1_000));
    assert_eq!(quality.bandwidth(), None);
    let copy = quality.clone();
    assert_eq!(copy.error_count(), 0);
}

#[test]
fn buffer_follows_the_round_trip_time() {
    let min = 8 * 1024;
    let max = 512 * 1024;
    assert_eq!(adjust_buffer_size(64 * 1024, None, min, max), 64 * 1024);
    assert_eq!(adjust_buffer_size(64 * 1024, Some(10 * MS), min, max), 128 * 1024);
    assert_eq!(adjust_buffer_size(400 * 1024, Some(10 * MS), min, max), max);
    assert_eq!(adjust_buffer_size(64 * 1024, Some(50 * MS), min, max), 64 * 1024);
    assert_eq!(adjust_buffer_size(64 * 1024, Some(200 * MS), min, max), 64 * 1024);
    assert_eq!(adjust_buffer_size(64 * 1024, Some(201 * MS), min, max), 32 * 1024);
    assert_eq!(adjust_buffer_size(12 * 1024, Some(300 * MS), min, max), min);
}

fn not_found(e: &AppError) -> bool {
    matches!(e, AppError::Network(NetworkError::ConnectionFailed(m)) if m == "Session not found")
}

#[test]
fn sessions_keep_data_for_a_resend() {
    let mut store = SessionStore::new();
    let first = SessionInfo::new("c".to_string(), "t".to_string(), 0);
    let second = SessionInfo::new("d".to_string(), "u".to_string(), 0);
    let (a, b) = (first.id, second.id);
    assert_ne!(a, b);
    let unknown = a ^ b ^ 1;
    store.insert(first);
    store.insert(second);
    assert_eq!(store.len(), 2);
    assert!(store.contains(a));
    store.cache_data(a, vec![1], 10).unwrap();
    store.cache_data(a, vec![2, 3], 11).unwrap();
    assert!(not_found(&store.cache_data(unknown, vec![4], 12).unwrap_err()));
    assert_eq!(store.take_pending_data(a, 13).unwrap(), vec![vec![1], vec![2, 3]]);
    assert_eq!(store.take_pending_data(a, 14).unwrap(), Vec::<Vec<u8>>::new());
    assert!(store.take_pending_data(b, 14).unwrap().is_empty());
    assert!(not_found(&store.take_pending_data(unknown, 15).unwrap_err()));
}

#[test]
fn replacing_a_session_keeps_one_entry() {
    let mut store = SessionStore::new();
    let session = SessionInfo::new("a".to_string(), "b".to_string(), 0);
    let id = session.id;
    store.insert(session);
    store.cache_data(id, vec![5], 1).unwrap();
    let mut again = SessionInfo::new("a".to_string(), "b".to_string(), 2);
    again.id = id;
    store.insert(again);
    assert_eq!(store.len(), 1);
    assert!(store.take_pending_data(id, 3).unwrap().is_empty());
}

#[test]
fn cleanup_drops_sessions_older_than_five_minutes() {
    let sec = 1_000_000_000u64;
    let mut store = SessionStore::new();
    let s1 = SessionInfo::new("a".to_string(), "x".to_string(), 0);
    let s2 = SessionInfo::new("b".to_string(), "x".to_string(), 100 * sec);
    let s3 = SessionInfo::new("c".to_string(), "x".to_string(), 500 * sec);
    let (i1, i2, i3) = (s1.id, s2.id, s3.id);
    store.insert(s1);
    store.insert(s2);
    store.insert(s3);
    store.cleanup_expired_sessions(400 * sec);
    assert_eq!(store.len(), 2);
    assert!(!store.contains(i1));
    assert!(store.contains(i2));
    assert!(store.contains(i3));
    store.cleanup_expired_sessions(401 * sec);
    assert!(!store.contains(i2));
    assert!(store.contains(i3));
}

#[test]
fn expiry_counts_from_the_last_update() {
    let mut session = SessionInfo::new("a".to_string(), "b".to_string(), 0);
    assert!(!session.is_expired(10, 10));
    assert!(session.is_expired(10, 11));
    session.add_pending_data(vec![1], 20);
    assert!(!session.is_expired(10, 30));
    assert!(!session.is_expired(10, 5));
}

#[test]
fn connecting_gives_up_after_the_last_attempt() {
    assert!(matches!(after_connect_attempt(1, 5, true), RetryAction::Connected));
    assert!(matches!(after_connect_attempt(4, 5, false), RetryAction::RetryAfterDelay));
    match after_connect_attempt(5, 5, false) {
        RetryAction::GiveUp(AppError::Network(NetworkError::ConnectionFailed(m))) => {
            assert_eq!(m, "Failed to connect after 5 attempts")
        }
        other => panic!("unexpected {:?}", other),
    }
    assert!(matches!(after_connect_attempt(0, 0, false), RetryAction::GiveUp(_)));
}
