//! Long-distance forwarding: the quality of a connection measured by its
//! round trips and errors, the buffer size that follows the round-trip time,
//! and the sessions whose pending data survive a reconnection.
//!
//! Times are nanoseconds on a monotonic clock that the caller reads.

use vstd::prelude::*;
use std::collections::HashMap;
use crate::error::{AppError, NetworkError};
use crate::text::{append_decimal, append_str, decimal, string_from};

verus! {

broadcast use vstd::std_specs::hash::group_hash_axioms;

/// Number of round-trip samples kept.
pub const RTT_HISTORY_LEN: usize = 20;

/// Errors from which a connection counts as unhealthy.
pub const MAX_HEALTHY_ERRORS: u32 = 5;

/// Idle time from which a connection counts as unhealthy (30 s).
pub const MAX_IDLE_NANOS: u64 = 30_000_000_000;

/// Age from which a session is dropped (300 s).
pub const SESSION_LIFETIME_NANOS: u64 = 300_000_000_000;

/// Round-trip time under which the buffer grows (50 ms).
pub const FAST_RTT_NANOS: u64 = 50_000_000;

/// Round-trip time over which the buffer shrinks (200 ms).
pub const SLOW_RTT_NANOS: u64 = 200_000_000;

/// The samples kept after one more is recorded: the last twenty.
pub open spec fn keep_recent(s: Seq<u64>) -> Seq<u64> {
    if s.len() > RTT_HISTORY_LEN {
        s.skip(s.len() - RTT_HISTORY_LEN)
    } else {
        s
    }
}

/// The sum of some samples.
pub open spec fn sum_samples(s: Seq<u64>) -> nat
    decreases s.len(),
{
    if s.len() == 0 {
        0
    } else {
        sum_samples(s.drop_last()) + s.last() as nat
    }
}

/// The mean of the samples, rounded down; none without samples.
pub open spec fn mean_rtt(s: Seq<u64>) -> Option<u64> {
    if s.len() == 0 {
        None
    } else {
        Some((sum_samples(s) / s.len()) as u64)
    }
}

/// Time passed from `since` to `now`, zero when `now` is earlier.
pub open spec fn elapsed(since: u64, now: u64) -> nat {
    if now >= since {
        (now - since) as nat
    } else {
        0
    }
}

proof fn lemma_sum_bound(s: Seq<u64>)
    ensures
        sum_samples(s) <= s.len() * (u64::MAX as nat),
    decreases s.len(),
{
    if s.len() > 0 {
        lemma_sum_bound(s.drop_last());
    }
}

proof fn lemma_mean_bound(total: nat, n: nat)
    requires
        n > 0,
        total <= n * (u64::MAX as nat),
    ensures
        total / n <= u64::MAX,
{
    assert(total / n <= u64::MAX) by (nonlinear_arith)
        requires
            n > 0,
            total <= n * (u64::MAX as nat),
    ;
}

/// What is measured of a connection: its recent round trips, its measured
/// bandwidth, when it was last active and how many errors it had.
#[derive(Debug)]
pub struct ConnectionQuality {
    rtt_history: Vec<u64>,
    bandwidth: Option<u64>,
    last_active: u64,
    error_count: u32,
}

impl Clone for ConnectionQuality {
    fn clone(&self) -> (r: Self)
        ensures
            r.samples() == self.samples(),
            r.active_at() == self.active_at(),
            r.errors() == self.errors(),
            r.measured_bandwidth() == self.measured_bandwidth(),
    {
        proof {
            use_type_invariant(self);
        }
        let rtt_history = self.rtt_history.clone();
        assert(rtt_history@ =~= self.rtt_history@);
        ConnectionQuality {
            rtt_history,
            bandwidth: self.bandwidth,
            last_active: self.last_active,
            error_count: self.error_count,
        }
    }
}

impl ConnectionQuality {
    #[verifier::type_invariant]
    spec fn well_formed(self) -> bool {
        self.rtt_history@.len() <= RTT_HISTORY_LEN
    }

    /// The round-trip samples kept, oldest first.
    pub closed spec fn samples(self) -> Seq<u64> {
        self.rtt_history@
    }

    /// When the connection was last active.
    pub closed spec fn active_at(self) -> u64 {
        self.last_active
    }

    /// Errors counted since the last reset.
    pub closed spec fn errors(self) -> u32 {
        self.error_count
    }

    /// The measured bandwidth, if any.
    pub closed spec fn measured_bandwidth(self) -> Option<u64> {
        self.bandwidth
    }

    /// The measured bandwidth, if any.
    pub fn bandwidth(&self) -> (r: Option<u64>)
        ensures
            r == self.measured_bandwidth(),
    {
        self.bandwidth
    }

    /// The number of errors counted.
    pub fn error_count(&self) -> (r: u32)
        ensures
            r == self.errors(),
    {
        self.error_count
    }

    /// A connection with nothing measured, active now.
    pub fn new(now: u64) -> (q: Self)
        ensures
            q.samples() == Seq::<u64>::empty(),
            q.active_at() == now,
            q.errors() == 0,
            q.measured_bandwidth() is None,
    {
        ConnectionQuality { rtt_history: Vec::new(), bandwidth: None, last_active: now, error_count: 0 }
    }

    /// Records a round trip: the oldest sample goes once twenty are kept,
    /// and the connection counts as active now.
    pub fn record_rtt(&mut self, rtt: u64, now: u64)
        ensures
            final(self).samples() == keep_recent(old(self).samples().push(rtt)),
            final(self).active_at() == now,
            final(self).errors() == old(self).errors(),
            final(self).measured_bandwidth() == old(self).measured_bandwidth(),
    {
        proof {
            use_type_invariant(&*self);
        }
        let mut history: Vec<u64> = Vec::new();
        std::mem::swap(&mut history, &mut self.rtt_history);
        history.push(rtt);
        if history.len() > RTT_HISTORY_LEN {
            history.remove(0);
        }
        proof {
            let pushed = old(self).samples().push(rtt);
            if pushed.len() > RTT_HISTORY_LEN {
                assert(history@ =~= pushed.skip(1));
            }
        }
        self.rtt_history = history;
        self.last_active = now;
    }

    /// The mean of the kept round trips, rounded down to the nanosecond;
    /// none before the first.
    pub fn get_average_rtt(&self) -> (r: Option<u64>)
        ensures
            r == mean_rtt(self.samples()),
    {
        proof {
            use_type_invariant(self);
        }
        let n = self.rtt_history.len();
        if n == 0 {
            return None;
        }
        let mut total: u128 = 0;
        let mut i: usize = 0;
        while i < n
            invariant
                n == self.rtt_history@.len(),
                n <= RTT_HISTORY_LEN,
                i <= n,
                total == sum_samples(self.rtt_history@.take(i as int)),
                total <= i * (u64::MAX as nat),
            decreases n - i,
        {
            assert(self.rtt_history@.take(i + 1).drop_last() =~= self.rtt_history@.take(i as int));
            total = total + self.rtt_history[i] as u128;
            i = i + 1;
        }
        assert(self.rtt_history@.take(n as int) =~= self.rtt_history@);
        proof {
            lemma_mean_bound(total as nat, n as nat);
        }
        Some((total / (n as u128)) as u64)
    }

    /// Counts one more error.
    pub fn record_error(&mut self)
        requires
            old(self).errors() < u32::MAX,
        ensures
            final(self).errors() == old(self).errors() + 1,
            final(self).samples() == old(self).samples(),
            final(self).active_at() == old(self).active_at(),
            final(self).measured_bandwidth() == old(self).measured_bandwidth(),
    {
        proof {
            use_type_invariant(&*self);
        }
        self.error_count = self.error_count + 1;
    }

    /// Clears the error count.
    pub fn reset_errors(&mut self)
        ensures
            final(self).errors() == 0,
            final(self).samples() == old(self).samples(),
            final(self).active_at() == old(self).active_at(),
            final(self).measured_bandwidth() == old(self).measured_bandwidth(),
    {
        proof {
            use_type_invariant(&*self);
        }
        self.error_count = 0;
    }

    /// Healthy: fewer than five errors and active within the last 30 s.
    pub fn is_healthy(&self, now: u64) -> (r: bool)
        ensures
            r <==> (self.errors() < MAX_HEALTHY_ERRORS && elapsed(self.active_at(), now)
                < MAX_IDLE_NANOS),
    {
        let idle = if now >= self.last_active {
            now - self.last_active
        } else {
            0
        };
        self.error_count < MAX_HEALTHY_ERRORS && idle < MAX_IDLE_NANOS
    }
}

/// The buffer size after a measurement: doubled (up to `max`) while the
/// mean round trip is under 50 ms, halved (down to `min`) while it is over
/// 200 ms, unchanged otherwise or without a measurement.
pub open spec fn adjusted_buffer_size(current: usize, rtt: Option<u64>, min: usize, max: usize) -> usize {
    match rtt {
        None => current,
        Some(t) => if t < FAST_RTT_NANOS {
            if current * 2 < max {
                (current * 2) as usize
            } else {
                max
            }
        } else if t > SLOW_RTT_NANOS {
            if current / 2 > min {
                current / 2
            } else {
                min
            }
        } else {
            current
        },
    }
}

/// The buffer size that follows the mean round trip.
pub fn adjust_buffer_size(current: usize, average_rtt: Option<u64>, min_buffer_size: usize, max_buffer_size: usize) -> (r: usize)
    requires
        current * 2 <= usize::MAX,
    ensures
        r == adjusted_buffer_size(current, average_rtt, min_buffer_size, max_buffer_size),
{
    match average_rtt {
        None => current,
        Some(rtt) => {
            if rtt < FAST_RTT_NANOS {
                let doubled = current * 2;
                if doubled < max_buffer_size {
                    doubled
                } else {
                    max_buffer_size
                }
            } else if rtt > SLOW_RTT_NANOS {
                let halved = current / 2;
                if halved > min_buffer_size {
                    halved
                } else {
                    min_buffer_size
                }
            } else {
                current
            }
        },
    }
}

/// A buffer size between the bounds stays between them, whatever is
/// measured.
pub proof fn lemma_buffer_size_bounded(current: usize, rtt: Option<u64>, min: usize, max: usize)
    requires
        min <= current <= max,
    ensures
        min <= adjusted_buffer_size(current, rtt, min, max) <= max,
{
}

/// `uuid::Uuid::new_v4`, as a number: a random version-4 UUID. Nothing is
/// claimed of its value.
#[verifier::external_body]
fn new_session_id() -> (r: u128) {
    uuid::Uuid::new_v4().as_u128()
}

/// A connection's session: where it goes and the data kept for a resend.
#[derive(Debug)]
pub struct SessionInfo {
    pub id: u128,
    pub client_addr: String,
    pub target_addr: String,
    pub created_at: u64,
    pub last_updated: u64,
    pub pending_data: Vec<Vec<u8>>,
}

impl SessionInfo {
    /// A session created now, under a fresh random id, with nothing pending.
    pub fn new(client_addr: String, target_addr: String, now: u64) -> (s: Self)
        ensures
            s.client_addr == client_addr,
            s.target_addr == target_addr,
            s.created_at == now,
            s.last_updated == now,
            s.pending_data@ == Seq::<Vec<u8>>::empty(),
    {
        let id = new_session_id();
        SessionInfo { id, client_addr, target_addr, created_at: now, last_updated: now, pending_data: Vec::new() }
    }

    /// Keeps `data` after what is pending.
    pub fn add_pending_data(&mut self, data: Vec<u8>, now: u64)
        ensures
            final(self).pending_data@ == old(self).pending_data@.push(data),
            final(self).last_updated == now,
            final(self).id == old(self).id,
            final(self).client_addr == old(self).client_addr,
            final(self).target_addr == old(self).target_addr,
            final(self).created_at == old(self).created_at,
    {
        self.pending_data.push(data);
        self.last_updated = now;
    }

    /// Hands out what is pending, oldest first, and empties it.
    pub fn take_pending_data(&mut self, now: u64) -> (r: Vec<Vec<u8>>)
        ensures
            r@ == old(self).pending_data@,
            final(self).pending_data@ == Seq::<Vec<u8>>::empty(),
            final(self).last_updated == now,
            final(self).id == old(self).id,
            final(self).client_addr == old(self).client_addr,
            final(self).target_addr == old(self).target_addr,
            final(self).created_at == old(self).created_at,
    {
        let mut data: Vec<Vec<u8>> = Vec::new();
        std::mem::swap(&mut data, &mut self.pending_data);
        self.last_updated = now;
        data
    }

    /// Whether the session has not been updated for longer than `timeout`.
    pub fn is_expired(&self, timeout: u64, now: u64) -> (r: bool)
        ensures
            r <==> elapsed(self.last_updated, now) > timeout,
    {
        let idle = if now >= self.last_updated {
            now - self.last_updated
        } else {
            0
        };
        idle > timeout
    }
}

/// What follows an attempt to connect, in a loop of at most `max_retries`
/// attempts.
#[derive(Debug)]
pub enum RetryAction {
    /// The connection is made.
    Connected,
    /// Wait out the delay, then try again.
    RetryAfterDelay,
    /// Stop with this error.
    GiveUp(AppError),
}

/// The error after `max_retries` failed attempts.
pub open spec fn retries_exhausted(e: AppError, max_retries: u32) -> bool {
    e matches AppError::Network(NetworkError::ConnectionFailed(m)) && m@ == "Failed to connect after "@ + decimal(
        max_retries as nat,
    ) + " attempts"@
}

/// The decision after attempt number `attempt` (from 1; 0 when none was
/// made) of at most `max_retries`: a connection ends the loop; a failure
/// before the last attempt waits and tries again; otherwise the loop gives
/// up.
pub fn after_connect_attempt(attempt: u32, max_retries: u32, connected: bool) -> (r: RetryAction)
    ensures
        connected ==> r is Connected,
        !connected && attempt < max_retries ==> r is RetryAfterDelay,
        !connected && attempt >= max_retries ==> (r matches RetryAction::GiveUp(e) && retries_exhausted(
            e,
            max_retries,
        )),
{
    if connected {
        RetryAction::Connected
    } else if attempt < max_retries {
        RetryAction::RetryAfterDelay
    } else {
        let mut m = string_from("Failed to connect after ");
        append_decimal(&mut m, max_retries as u64);
        append_str(&mut m, " attempts");
        RetryAction::GiveUp(AppError::Network(NetworkError::ConnectionFailed(m)))
    }
}

/// The error for an unknown session.
pub open spec fn session_not_found(e: AppError) -> bool {
    e matches AppError::Network(NetworkError::ConnectionFailed(m)) && m@ == "Session not found"@
}

/// Whether a session is kept by a cleanup at `now`: created at most 300 s
/// ago.
pub open spec fn session_alive(s: SessionInfo, now: u64) -> bool {
    elapsed(s.created_at, now) <= SESSION_LIFETIME_NANOS
}

/// `after` is `before` with `data` kept after its pending data, updated at
/// `now`.
pub open spec fn pending_added(before: SessionInfo, after: SessionInfo, data: Vec<u8>, now: u64) -> bool {
    &&& after.id == before.id
    &&& after.client_addr == before.client_addr
    &&& after.target_addr == before.target_addr
    &&& after.created_at == before.created_at
    &&& after.last_updated == now
    &&& after.pending_data@ == before.pending_data@.push(data)
}

/// The ids of the sessions of a map, in the map's order.
fn session_ids(m: &HashMap<u128, SessionInfo>) -> (r: Vec<u128>)
    ensures
        forall|k: u128| m@.contains_key(k) <==> r@.contains(k),
{
    let mut r: Vec<u128> = Vec::new();
    for k in it: m.keys()
        invariant
            it.seq().unref().to_set() == m@.dom(),
            r@.len() == it.index(),
            forall|j: int| 0 <= j < it.index() ==> r@[j] == *it.seq()[j],
            forall|x: u128| r@.contains(x) ==> m@.contains_key(x),
            forall|x: u128| #[trigger] m@.contains_key(x) ==> r@.contains(x) || exists|j: int|
                it.index() <= j < it.seq().len() && *it.seq()[j] == x,
    {
        let ghost j0 = it.index();
        let ghost before = r@;
        proof {
            assert(it.seq().unref()[j0 as int] == *k);
            assert(it.seq().unref().to_set().contains(*k));
            assert(m@.dom().contains(*k));
        }
        r.push(*k);
        proof {
            assert(r@ == before.push(*k));
            assert forall|x: u128| r@.contains(x) implies m@.contains_key(x) by {
                let a = choose|a: int| 0 <= a < r@.len() && r@[a] == x;
                if a < before.len() {
                    assert(before[a] == x);
                    assert(before.contains(x));
                }
            }
            assert forall|x: u128| #[trigger] m@.contains_key(x) implies r@.contains(x) || exists|j: int|
                j0 + 1 <= j < it.seq().len() && *it.seq()[j] == x by {
                if before.contains(x) {
                    let a = choose|a: int| 0 <= a < before.len() && before[a] == x;
                    assert(r@[a] == x);
                } else {
                    let j = choose|j: int| j0 <= j < it.seq().len() && *it.seq()[j] == x;
                    if j == j0 {
                        assert(r@[before.len() as int] == x);
                    }
                }
            }
        }
    }
    r
}

/// The sessions of a manager by id.
#[derive(Debug)]
pub struct SessionStore {
    sessions: HashMap<u128, SessionInfo>,
}

impl View for SessionStore {
    type V = Map<u128, SessionInfo>;

    closed spec fn view(&self) -> Map<u128, SessionInfo> {
        self.sessions@
    }
}

impl SessionStore {
    /// Each session is kept under its own id.
    #[verifier::type_invariant]
    spec fn well_formed(self) -> bool {
        forall|k: u128| #[trigger] self.sessions@.contains_key(k) ==> self.sessions@[k].id == k
    }

    /// No sessions.
    pub fn new() -> (s: Self)
        ensures
            s@ == Map::<u128, SessionInfo>::empty(),
    {
        SessionStore { sessions: HashMap::new() }
    }

    /// Number of sessions.
    pub fn len(&self) -> (r: usize)
        ensures
            self@.dom().finite(),
            r == self@.dom().len(),
    {
        self.sessions.len()
    }

    /// Whether a session has this id.
    pub fn contains(&self, id: u128) -> (r: bool)
        ensures
            r == self@.contains_key(id),
    {
        self.sessions.contains_key(&id)
    }

    /// Stores a session; one with the same id is replaced.
    pub fn insert(&mut self, session: SessionInfo)
        ensures
            final(self)@ == old(self)@.insert(session.id, session),
    {
        proof {
            use_type_invariant(&*self);
        }
        let id = session.id;
        let mut sessions: HashMap<u128, SessionInfo> = HashMap::new();
        std::mem::swap(&mut sessions, &mut self.sessions);
        sessions.insert(id, session);
        self.sessions = sessions;
    }

    /// Keeps `data` for a resend after what the session already holds; an
    /// unknown session is an error and nothing changes.
    pub fn cache_data(&mut self, id: u128, data: Vec<u8>, now: u64) -> (r: Result<(), AppError>)
        ensures
            old(self)@.contains_key(id) ==> {
                &&& r is Ok
                &&& final(self)@ == old(self)@.insert(id, final(self)@[id])
                &&& pending_added(old(self)@[id], final(self)@[id], data, now)
            },
            !old(self)@.contains_key(id) ==> (r is Err && session_not_found(r->Err_0) && final(self)@ == old(
                self,
            )@),
    {
        proof {
            use_type_invariant(&*self);
        }
        let ghost before = self.sessions@;
        let mut sessions: HashMap<u128, SessionInfo> = HashMap::new();
        std::mem::swap(&mut sessions, &mut self.sessions);
        match sessions.remove(&id) {
            Some(mut session) => {
                session.add_pending_data(data, now);
                sessions.insert(id, session);
                proof {
                    assert(sessions@ =~= before.insert(id, session));
                }
                self.sessions = sessions;
                Ok(())
            },
            None => {
                self.sessions = sessions;
                Err(AppError::Network(NetworkError::ConnectionFailed(string_from("Session not found"))))
            },
        }
    }

    /// Hands out the data kept for a session, oldest first, and empties it;
    /// an unknown session is an error and nothing changes.
    pub fn take_pending_data(&mut self, id: u128, now: u64) -> (r: Result<Vec<Vec<u8>>, AppError>)
        ensures
            old(self)@.contains_key(id) ==> {
                &&& r is Ok
                &&& r->Ok_0@ == old(self)@[id].pending_data@
                &&& final(self)@ == old(self)@.insert(id, final(self)@[id])
                &&& final(self)@[id].pending_data@ == Seq::<Vec<u8>>::empty()
                &&& final(self)@[id].last_updated == now
                &&& final(self)@[id].id == id
                &&& final(self)@[id].created_at == old(self)@[id].created_at
            },
            !old(self)@.contains_key(id) ==> (r is Err && session_not_found(r->Err_0) && final(self)@ == old(
                self,
            )@),
    {
        proof {
            use_type_invariant(&*self);
        }
        let ghost before = self.sessions@;
        let mut sessions: HashMap<u128, SessionInfo> = HashMap::new();
        std::mem::swap(&mut sessions, &mut self.sessions);
        match sessions.remove(&id) {
            Some(mut session) => {
                let pending = session.take_pending_data(now);
                sessions.insert(id, session);
                proof {
                    assert(sessions@ =~= before.insert(id, session));
                }
                self.sessions = sessions;
                Ok(pending)
            },
            None => {
                self.sessions = sessions;
                Err(AppError::Network(NetworkError::ConnectionFailed(string_from("Session not found"))))
            },
        }
    }

    /// Drops the sessions created more than 300 s before `now`.
    pub fn cleanup_expired_sessions(&mut self, now: u64)
        ensures
            final(self)@ == old(self)@.restrict(
                old(self)@.dom().filter(|id: u128| session_alive(old(self)@[id], now)),
            ),
            forall|id: u128|
                #[trigger] final(self)@.contains_key(id) <==> old(self)@.contains_key(id) && (now as int) - (old(
                    self,
                )@[id].created_at as int) <= 300_000_000_000,
            forall|id: u128| #[trigger] final(self)@.contains_key(id) ==> final(self)@[id] == old(self)@[id],
    {
        proof {
            use_type_invariant(&*self);
        }
        let ghost before = self.sessions@;
        let mut sessions: HashMap<u128, SessionInfo> = HashMap::new();
        std::mem::swap(&mut sessions, &mut self.sessions);
        let ids = session_ids(&sessions);
        let mut i: usize = 0;
        while i < ids.len()
            invariant
                i <= ids@.len(),
                forall|k: u128| before.contains_key(k) <==> ids@.contains(k),
                forall|k: u128| #[trigger] sessions@.contains_key(k) ==> sessions@[k].id == k,
                forall|k: u128|
                    #[trigger] sessions@.contains_key(k) <==> (before.contains_key(k) && (session_alive(
                        before[k],
                        now,
                    ) || !ids@.take(i as int).contains(k))),
                forall|k: u128| #[trigger] sessions@.contains_key(k) ==> sessions@[k] == before[k],
            decreases ids@.len() - i,
        {
            let id = ids[i];
            let expired = match sessions.get(&id) {
                Some(session) => {
                    let age = if now >= session.created_at {
                        now - session.created_at
                    } else {
                        0
                    };
                    age > SESSION_LIFETIME_NANOS
                },
                None => false,
            };
            let ghost cur = sessions@;
            if expired {
                sessions.remove(&id);
            }
            proof {
                let pre = ids@.take(i as int);
                let post = ids@.take(i + 1);
                assert(post =~= pre.push(id));
                assert forall|k: u128| #[trigger] sessions@.contains_key(k) <==> (before.contains_key(k) && (
                session_alive(before[k], now) || !post.contains(k))) by {
                    if k != id {
                        if post.contains(k) {
                            let a = choose|a: int| 0 <= a < post.len() && post[a] == k;
                            assert(pre[a] == k);
                        }
                        if pre.contains(k) {
                            let a = choose|a: int| 0 <= a < pre.len() && pre[a] == k;
                            assert(post[a] == k);
                        }
                    } else {
                        assert(post[i as int] == id);
                    }
                }
            }
            i = i + 1;
        }
        proof {
            assert(ids@.take(ids@.len() as int) =~= ids@);
            let target = before.restrict(before.dom().filter(|id: u128| session_alive(before[id], now)));
            assert(sessions@ =~= target);
        }
        self.sessions = sessions;
    }
}

/// What a cleanup keeps: the sessions created at most 300 s
/// (300_000_000_000 ns) before `now`, whenever they were last updated, each
/// as it was; a session whose creation time lies after `now` counts as new.
pub proof fn lemma_cleanup_keeps_sessions_by_age(
    before: Map<u128, SessionInfo>,
    after: Map<u128, SessionInfo>,
    now: u64,
)
    requires
        after == before.restrict(before.dom().filter(|id: u128| session_alive(before[id], now))),
    ensures
        forall|id: u128|
            #[trigger] after.contains_key(id) <==> before.contains_key(id) && (now as int) - (
            before[id].created_at as int) <= 300_000_000_000,
        forall|id: u128| #[trigger] after.contains_key(id) ==> after[id] == before[id],
{
}

} // verus!
