use gsc_fq::error::ProxyError;
use gsc_fq::relay::{relay_step, RelayAction, RelayEvent, RelaySide};

#[test]
fn data_is_forwarded_and_counts_as_activity() {
    let (last, action) = relay_step(10, 25, 60, RelayEvent::Read { from: RelaySide::Client, n: 5 });
    assert_eq!(last, 25);
    assert!(matches!(action, RelayAction::Forward { from: RelaySide::Client, n: 5 }));
    let (last, action) = relay_step(10, 25, 60, RelayEvent::Written);
    assert_eq!(last, 10);
    assert!(matches!(action, RelayAction::Continue));
}

#[test]
fn end_of_stream_and_read_errors_close() {
    let (last, action) = relay_step(10, 25, 60, RelayEvent::Read { from: RelaySide::Remote, n: 0 });
    assert_eq!(last, 10);
    assert!(matches!(action, RelayAction::Close));
    assert!(matches!(relay_step(10, 25, 60, RelayEvent::ReadFailed).1, RelayAction::Close));
}

#[test]
fn idle_relays_close_only_past_the_timeout() {
    assert!(matches!(relay_step(0, 60, 60, RelayEvent::ReadTimedOut).1, RelayAction::Continue));
    assert!(matches!(relay_step(0, 61, 60, RelayEvent::ReadTimedOut).1, RelayAction::Close));
    assert!(matches!(relay_step(0, 61, 60, RelayEvent::IdleTick).1, RelayAction::Close));
    assert!(matches!(relay_step(100, 50, 0, RelayEvent::IdleTick).1, RelayAction::Continue));
}

#[test]
fn write_problems_name_the_side_written_to() {
    let (_, a) = relay_step(0, 1, 60, RelayEvent::WriteFailed { from: RelaySide::Client, message: "broken pipe".to_string() });
    assert!(matches!(a, RelayAction::Fail(ProxyError::ForwardingFailed(ref m)) if m == "Remote write failed: broken pipe"));
    let (_, a) = relay_step(0, 1, 60, RelayEvent::WriteFailed { from: RelaySide::Remote, message: "reset".to_string() });
    assert!(matches!(a, RelayAction::Fail(ProxyError::ForwardingFailed(ref m)) if m == "Client write failed: reset"));
    let (_, a) = relay_step(0, 1, 60, RelayEvent::WriteTimedOut { from: RelaySide::Client });
    assert!(matches!(a, RelayAction::Fail(ProxyError::ForwardingFailed(ref m)) if m == "Remote write timeout"));
    let (_, a) = relay_step(0, 1, 60, RelayEvent::WriteTimedOut { from: RelaySide::Remote });
    assert!(matches!(a, RelayAction::Fail(ProxyError::ForwardingFailed(ref m)) if m == "Client write timeout"));
}
