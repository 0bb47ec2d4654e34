//! The decisions of a two-way relay with read, write and idle timeouts: what
//! to do after each thing that happens on either side. The caller does the
//! reading, writing and waiting, and reports each outcome here.

use vstd::prelude::*;
use crate::error::ProxyError;
use crate::text::{append_str, string_from};

verus! {

/// The side data comes from.
#[derive(Debug, Clone, Copy, PartialEq, Eq, Structural)]
pub enum RelaySide {
    Client,
    Remote,
}

/// What happened on the relay. Times are in the caller's clock, in any unit
/// shared with the idle timeout.
#[derive(Debug, Clone)]
pub enum RelayEvent {
    /// `n` bytes were read from `from`.
    Read { from: RelaySide, n: usize },
    /// A read ran into its timeout, or reported `WouldBlock` or `TimedOut`.
    ReadTimedOut,
    /// A read failed otherwise.
    ReadFailed,
    /// The forwarded bytes were written.
    Written,
    /// Writing the bytes read from `from` failed with the given message.
    WriteFailed { from: RelaySide, message: String },
    /// Writing the bytes read from `from` ran into its timeout.
    WriteTimedOut { from: RelaySide },
    /// The idle timer went off.
    IdleTick,
}

/// What the caller does next.
#[derive(Debug, Clone)]
pub enum RelayAction {
    /// Write the `n` bytes just read from `from` to the other side.
    Forward { from: RelaySide, n: usize },
    /// Keep relaying.
    Continue,
    /// End the relay normally.
    Close,
    /// End the relay with this error.
    Fail(ProxyError),
}

/// Time since the last activity; a clock that went back counts as none.
pub open spec fn idle_for(last_activity: u64, now: u64) -> int {
    if now >= last_activity {
        now - last_activity
    } else {
        0
    }
}

/// The action and the new time of last activity after `event`: data moves
/// the time of last activity to `now` and is forwarded; end of stream or a
/// failed read closes; a timed-out read or the idle timer closes when the
/// relay has been idle longer than `idle_timeout`, and otherwise relaying goes
/// on; a write that failed or timed out ends the relay with an error naming
/// the side written to.
pub fn relay_step(last_activity: u64, now: u64, idle_timeout: u64, event: RelayEvent) -> (r: (u64, RelayAction))
    ensures
        event matches RelayEvent::Read { from, n } ==> (if n > 0 {
            r.0 == now && (r.1 matches RelayAction::Forward { from: f, n: m } && f == from && m == n)
        } else {
            r.0 == last_activity && r.1 is Close
        }),
        event is ReadFailed ==> r.0 == last_activity && r.1 is Close,
        (event is ReadTimedOut || event is IdleTick) ==> r.0 == last_activity && (if idle_for(
            last_activity,
            now,
        ) > idle_timeout {
            r.1 is Close
        } else {
            r.1 is Continue
        }),
        event is Written ==> r.0 == last_activity && r.1 is Continue,
        event matches RelayEvent::WriteFailed { from, message } ==> r.0 == last_activity && (r.1 matches RelayAction::Fail(
            ProxyError::ForwardingFailed(m),
        ) && m@ == (if from == RelaySide::Client {
            "Remote write failed: "@
        } else {
            "Client write failed: "@
        }) + message@),
        event matches RelayEvent::WriteTimedOut { from } ==> r.0 == last_activity && (r.1 matches RelayAction::Fail(
            ProxyError::ForwardingFailed(m),
        ) && m@ == (if from == RelaySide::Client {
            "Remote write timeout"@
        } else {
            "Client write timeout"@
        })),
{
    match event {
        RelayEvent::Read { from, n } => {
            if n == 0 {
                (last_activity, RelayAction::Close)
            } else {
                (now, RelayAction::Forward { from, n })
            }
        },
        RelayEvent::ReadFailed => (last_activity, RelayAction::Close),
        RelayEvent::ReadTimedOut | RelayEvent::IdleTick => {
            let idle: u64 = if now >= last_activity {
                now - last_activity
            } else {
                0
            };
            if idle > idle_timeout {
                (last_activity, RelayAction::Close)
            } else {
                (last_activity, RelayAction::Continue)
            }
        },
        RelayEvent::Written => (last_activity, RelayAction::Continue),
        RelayEvent::WriteFailed { from, message } => {
            let mut m = match from {
                RelaySide::Client => string_from("Remote write failed: "),
                RelaySide::Remote => string_from("Client write failed: "),
            };
            append_str(&mut m, message.as_str());
            (last_activity, RelayAction::Fail(ProxyError::ForwardingFailed(m)))
        },
        RelayEvent::WriteTimedOut { from } => {
            let m = match from {
                RelaySide::Client => string_from("Remote write timeout"),
                RelaySide::Remote => string_from("Client write timeout"),
            };
            (last_activity, RelayAction::Fail(ProxyError::ForwardingFailed(m)))
        },
    }
}

} // verus!
