//! Stealth forwarding: telling a refusing server apart, the black hole delay,
//! connection counters, and the per-address access rules of a listener.

use std::collections::HashMap;
use std::time::{SystemTime, UNIX_EPOCH};
use vstd::prelude::*;
use crate::error::ProxyError;
use crate::text::{append_str, chars_of, contains, str_contains, string_from};

verus! {

broadcast use vstd::std_specs::hash::group_hash_axioms;

// ---------------------------------------------------------------------------
// Failures of the network
// ---------------------------------------------------------------------------

/// The kinds of I/O failure the proxy tells apart.
#[derive(Debug, Clone, Copy, PartialEq, Eq, Structural)]
pub enum IoErrorKind {
    ConnectionReset,
    ConnectionRefused,
    ConnectionAborted,
    BrokenPipe,
    WouldBlock,
    TimedOut,
    NotFound,
    Other,
}

/// Whether an I/O failure means the peer reset, refused or aborted the
/// connection.
pub fn is_connection_reset(kind: IoErrorKind) -> (r: bool)
    ensures
        r == (kind == IoErrorKind::ConnectionReset || kind == IoErrorKind::ConnectionRefused || kind
            == IoErrorKind::ConnectionAborted),
{
    match kind {
        IoErrorKind::ConnectionReset | IoErrorKind::ConnectionRefused | IoErrorKind::ConnectionAborted => true,
        _ => false,
    }
}

// ---------------------------------------------------------------------------
// Pseudo-random delays
// ---------------------------------------------------------------------------

/// The linear congruential step `(1664525 * seed + 1013904223) mod 2^64`,
/// reduced modulo 2^32.
pub open spec fn lcg_value(seed: u64) -> u64 {
    (vstd::wrapping::u64_specs::wrapping_add(
        vstd::wrapping::u64_specs::wrapping_mul(1664525, seed),
        1013904223,
    ) as nat % 0x1_0000_0000) as u64
}

/// The value in `[min, max]` that a seed picks.
pub open spec fn value_in_range(seed: u64, min: u64, max: u64) -> u64 {
    (min + (lcg_value(seed) as nat) % ((max - min + 1) as nat)) as u64
}

/// Nanoseconds since the Unix epoch by the system clock (0 for a clock set
/// before the epoch), truncated to 64 bits. Nothing is claimed of the value.
#[verifier::external_body]
fn clock_nanos() -> (r: u64) {
    SystemTime::now().duration_since(UNIX_EPOCH).unwrap_or_default().as_nanos() as u64
}

/// The value in `[min, max]` that a seed picks.
pub fn pseudo_random_from_seed(seed: u64, min: u64, max: u64) -> (r: u64)
    requires
        min <= max,
        max - min < u64::MAX,
    ensures
        r == value_in_range(seed, min, max),
        min <= r <= max,
{
    let a: u64 = 1664525;
    let c: u64 = 1013904223;
    let m: u64 = 0x1_0000_0000;
    let result = (a.wrapping_mul(seed).wrapping_add(c)) % m;
    let span = max - min + 1;
    min + (result % span)
}

/// A pseudo-random number in `[min, max]`, seeded by the clock.
pub fn pseudo_random_range(min: u64, max: u64) -> (r: u64)
    requires
        min <= max,
        max - min < u64::MAX,
    ensures
        min <= r <= max,
        exists|seed: u64| r == value_in_range(seed, min, max),
{
    let seed = clock_nanos();
    pseudo_random_from_seed(seed, min, max)
}

/// How long a black-holed client is held, in seconds: two to thirty minutes.
pub fn blackhole_delay_seconds() -> (r: u64)
    ensures
        120 <= r <= 1800,
{
    pseudo_random_range(120, 1800)
}

/// What one read from a black-holed client gave.
#[derive(Debug, Clone, Copy, PartialEq, Eq, Structural)]
pub enum ReadOutcome {
    /// Some bytes, which are thrown away.
    Data(usize),
    /// The client closed the connection.
    Closed,
    /// The read failed.
    Failed(IoErrorKind),
}

/// Whether the black hole keeps reading after a read: data is swallowed, a
/// closed connection or a failure ends it; `tolerate_would_block` lets a
/// "would block" failure pass.
pub fn blackhole_keeps_reading(outcome: ReadOutcome, tolerate_would_block: bool) -> (r: bool)
    ensures
        r == match outcome {
            ReadOutcome::Data(_) => true,
            ReadOutcome::Closed => false,
            ReadOutcome::Failed(k) => tolerate_would_block && k == IoErrorKind::WouldBlock,
        },
{
    match outcome {
        ReadOutcome::Data(_) => true,
        ReadOutcome::Closed => false,
        ReadOutcome::Failed(k) => tolerate_would_block && k == IoErrorKind::WouldBlock,
    }
}

// ---------------------------------------------------------------------------
// Rejections
// ---------------------------------------------------------------------------

/// A message that speaks of a refusal, a reset, a rejection or a timeout.
pub open spec fn rejection_text(m: Seq<char>) -> bool {
    contains(m, "refused"@) || contains(m, "reset"@) || contains(m, "rejected"@) || contains(m, "timeout"@)
}

/// What a stealth handler does when the server cannot be reached.
#[derive(Debug)]
pub enum ConnectFailure {
    /// Keep the client connected and swallow its data for a while.
    Blackhole,
    /// Give up with this error.
    Fail(ProxyError),
}

/// Forwarding that hides from active probing: when the server refuses, the
/// client is held in a black hole instead of being told.
pub struct StealthHandler;

impl StealthHandler {
    /// Whether a forwarding error reports a refusal, a reset, a rejection or
    /// a timeout.
    pub fn is_rejection(err: &ProxyError) -> (r: bool)
        ensures
            r == (err is ForwardingFailed && rejection_text(err->ForwardingFailed_0@)),
    {
        match err {
            ProxyError::ForwardingFailed(msg) => {
                let m = chars_of(msg.as_str());
                str_contains(m.as_slice(), "refused") || str_contains(m.as_slice(), "reset")
                    || str_contains(m.as_slice(), "rejected") || str_contains(m.as_slice(), "timeout")
            },
            _ => false,
        }
    }

    /// Whether an I/O failure means the server turned the connection away.
    pub fn is_io_rejection(kind: IoErrorKind) -> (r: bool)
        ensures
            r == (kind == IoErrorKind::ConnectionReset || kind == IoErrorKind::ConnectionRefused || kind
                == IoErrorKind::ConnectionAborted || kind == IoErrorKind::BrokenPipe),
    {
        match kind {
            IoErrorKind::ConnectionReset | IoErrorKind::ConnectionRefused | IoErrorKind::ConnectionAborted
            | IoErrorKind::BrokenPipe => true,
            _ => false,
        }
    }

    /// Whether the text of a connection failure reads as a refusal.
    pub fn is_connection_error_rejection(error_msg: &str) -> (r: bool)
        ensures
            r == (rejection_text(error_msg@) || contains(error_msg@, "connection"@)),
    {
        let m = chars_of(error_msg);
        str_contains(m.as_slice(), "refused") || str_contains(m.as_slice(), "reset") || str_contains(
            m.as_slice(),
            "rejected",
        ) || str_contains(m.as_slice(), "timeout") || str_contains(m.as_slice(), "connection")
    }

    /// What to do when connecting to the server failed with this kind and
    /// text: a refusal leads to the black hole, anything else to an error.
    pub fn on_connect_error(kind: IoErrorKind, error_msg: &str) -> (r: ConnectFailure)
        ensures
            (kind == IoErrorKind::ConnectionReset || kind == IoErrorKind::ConnectionRefused || kind
                == IoErrorKind::ConnectionAborted || kind == IoErrorKind::BrokenPipe || rejection_text(
                error_msg@,
            ) || contains(error_msg@, "connection"@)) ==> r is Blackhole,
            !(kind == IoErrorKind::ConnectionReset || kind == IoErrorKind::ConnectionRefused || kind
                == IoErrorKind::ConnectionAborted || kind == IoErrorKind::BrokenPipe || rejection_text(
                error_msg@,
            ) || contains(error_msg@, "connection"@)) ==> (r matches ConnectFailure::Fail(
                ProxyError::ForwardingFailed(m),
            ) && m@ == "Connection failed: "@ + error_msg@),
    {
        if StealthHandler::is_io_rejection(kind) || StealthHandler::is_connection_error_rejection(error_msg) {
            ConnectFailure::Blackhole
        } else {
            let mut m = string_from("Connection failed: ");
            append_str(&mut m, error_msg);
            ConnectFailure::Fail(ProxyError::ForwardingFailed(m))
        }
    }

    /// How long a client is held in the black hole, in seconds.
    pub fn blackhole_seconds() -> (r: u64)
        ensures
            5 <= r <= 30,
    {
        pseudo_random_range(5, 30)
    }
}

// ---------------------------------------------------------------------------
// Counters
// ---------------------------------------------------------------------------

/// Running counters of a stealth listener; each wraps around like an atomic
/// counter would.
#[derive(Debug)]
pub struct StealthConnectionCounters {
    pub total_connections: u64,
    pub active_connections: u64,
    pub successful_connections: u64,
    pub failed_connections: u64,
    pub bytes_transferred: u64,
}

/// A snapshot of the counters.
#[derive(Debug, Clone, Copy)]
pub struct StealthConnectionStats {
    pub total_connections: u64,
    pub active_connections: u64,
    pub successful_connections: u64,
    pub failed_connections: u64,
    pub bytes_transferred: u64,
}

impl Default for StealthConnectionStats {
    fn default() -> (r: Self)
        ensures
            r.total_connections == 0 && r.active_connections == 0 && r.successful_connections == 0
                && r.failed_connections == 0 && r.bytes_transferred == 0,
    {
        StealthConnectionStats {
            total_connections: 0,
            active_connections: 0,
            successful_connections: 0,
            failed_connections: 0,
            bytes_transferred: 0,
        }
    }
}

impl StealthConnectionCounters {
    /// All counters at zero.
    pub fn new() -> (r: Self)
        ensures
            r.total_connections == 0 && r.active_connections == 0 && r.successful_connections == 0
                && r.failed_connections == 0 && r.bytes_transferred == 0,
    {
        StealthConnectionCounters {
            total_connections: 0,
            active_connections: 0,
            successful_connections: 0,
            failed_connections: 0,
            bytes_transferred: 0,
        }
    }

    pub fn total_connections(&self) -> (r: u64)
        ensures
            r == self.total_connections,
    {
        self.total_connections
    }

    pub fn active_connections(&self) -> (r: u64)
        ensures
            r == self.active_connections,
    {
        self.active_connections
    }

    pub fn successful_connections(&self) -> (r: u64)
        ensures
            r == self.successful_connections,
    {
        self.successful_connections
    }

    pub fn failed_connections(&self) -> (r: u64)
        ensures
            r == self.failed_connections,
    {
        self.failed_connections
    }

    pub fn bytes_transferred(&self) -> (r: u64)
        ensures
            r == self.bytes_transferred,
    {
        self.bytes_transferred
    }

    /// A snapshot holding the current values.
    pub fn snapshot(&self) -> (r: StealthConnectionStats)
        ensures
            r.total_connections == self.total_connections,
            r.active_connections == self.active_connections,
            r.successful_connections == self.successful_connections,
            r.failed_connections == self.failed_connections,
            r.bytes_transferred == self.bytes_transferred,
    {
        StealthConnectionStats {
            total_connections: self.total_connections,
            active_connections: self.active_connections,
            successful_connections: self.successful_connections,
            failed_connections: self.failed_connections,
            bytes_transferred: self.bytes_transferred,
        }
    }

    /// A connection was admitted: one more in total and one more active.
    pub fn record_opened(&mut self)
        ensures
            final(self).total_connections == vstd::wrapping::u64_specs::wrapping_add(
                old(self).total_connections,
                1,
            ),
            final(self).active_connections == vstd::wrapping::u64_specs::wrapping_add(
                old(self).active_connections,
                1,
            ),
            final(self).successful_connections == old(self).successful_connections,
            final(self).failed_connections == old(self).failed_connections,
            final(self).bytes_transferred == old(self).bytes_transferred,
    {
        self.total_connections = self.total_connections.wrapping_add(1);
        self.active_connections = self.active_connections.wrapping_add(1);
    }

    /// A connection ended. A successful one counts as such and is no longer
    /// active; a failed one only counts as failed (it stays counted as
    /// active).
    pub fn record_finished(&mut self, succeeded: bool)
        ensures
            final(self).total_connections == old(self).total_connections,
            final(self).bytes_transferred == old(self).bytes_transferred,
            succeeded ==> final(self).successful_connections == vstd::wrapping::u64_specs::wrapping_add(
                old(self).successful_connections,
                1,
            ) && final(self).active_connections == vstd::wrapping::u64_specs::wrapping_sub(
                old(self).active_connections,
                1,
            ) && final(self).failed_connections == old(self).failed_connections,
            !succeeded ==> final(self).failed_connections == vstd::wrapping::u64_specs::wrapping_add(
                old(self).failed_connections,
                1,
            ) && final(self).active_connections == old(self).active_connections
                && final(self).successful_connections == old(self).successful_connections,
    {
        if succeeded {
            self.successful_connections = self.successful_connections.wrapping_add(1);
            self.active_connections = self.active_connections.wrapping_sub(1);
        } else {
            self.failed_connections = self.failed_connections.wrapping_add(1);
        }
    }
}

// ---------------------------------------------------------------------------
// Per-address access rules
// ---------------------------------------------------------------------------

/// One second, in nanoseconds.
pub const ONE_SECOND_NS: u64 = 1_000_000_000;

/// What is kept for one client address.
#[derive(Debug)]
pub struct IpSecurityStats {
    /// Connections admitted and not yet ended.
    pub active_connections: usize,
    /// When recent connections were admitted, in nanoseconds.
    pub recent_connections: Vec<u64>,
}

impl IpSecurityStats {
    /// Nothing recorded yet.
    pub fn new() -> (r: Self)
        ensures
            r.active_connections == 0,
            r.recent_connections@.len() == 0,
    {
        IpSecurityStats { active_connections: 0, recent_connections: Vec::new() }
    }
}

/// The times less than a second before `now`.
pub open spec fn within_last_second(s: Seq<u64>, now: u64) -> Seq<u64>
    decreases s.len(),
{
    if s.len() == 0 {
        seq![]
    } else {
        let rest = within_last_second(s.drop_last(), now);
        if crate::totp::saturating_sub(now, s.last()) < ONE_SECOND_NS {
            rest.push(s.last())
        } else {
            rest
        }
    }
}

/// A pattern of the allow list lets an address in when it is the address
/// itself or a catch-all.
pub open spec fn pattern_admits(pattern: Seq<char>, ip: Seq<char>) -> bool {
    pattern == ip || pattern == "0.0.0.0/0"@ || pattern == "::/0"@
}

proof fn lemma_acl_witness(l: Seq<Seq<char>>, ip: Seq<char>, i: int)
    requires
        0 <= i < l.len(),
        pattern_admits(l[i], ip),
    ensures
        acl_allows(Some(l), ip),
{
    assert(exists|j: int| 0 <= j < l.len() && #[trigger] pattern_admits(l[j], ip));
    let a: Option<Seq<Seq<char>>> = Some(l);
    assert(a->Some_0 == l);
}

/// An address is allowed when there is no list, or when a pattern of the list
/// lets it in.
pub open spec fn acl_allows(allow: Option<Seq<Seq<char>>>, ip: Seq<char>) -> bool {
    match allow {
        None => true,
        Some(list) => exists|i: int| 0 <= i < list.len() && #[trigger] pattern_admits(list[i], ip),
    }
}

/// The recorded values of an address, or none yet.
pub open spec fn entry_of(m: Map<u128, (usize, Seq<u64>)>, key: u128) -> (usize, Seq<u64>) {
    if m.contains_key(key) {
        m[key]
    } else {
        (0, seq![])
    }
}

/// The access rules of a listener, and what they track per client address
/// (keyed by the address as a 128-bit number, IPv4 mapped into IPv6).
pub struct SecurityState {
    allow_ips: Option<Vec<String>>,
    max_conns_per_ip: Option<usize>,
    cps_limit: Option<usize>,
    ip_stats: HashMap<u128, IpSecurityStats>,
}

impl SecurityState {
    /// The allow list.
    pub closed spec fn allow(&self) -> Option<Seq<Seq<char>>> {
        match self.allow_ips {
            Some(v) => Some(crate::config::texts(v@)),
            None => None,
        }
    }

    /// The largest number of simultaneous connections from one address.
    pub closed spec fn max_conns(&self) -> Option<usize> {
        self.max_conns_per_ip
    }

    /// The number of connections admitted per second from one address.
    pub closed spec fn cps(&self) -> Option<usize> {
        self.cps_limit
    }

    /// Active connections and recent admissions per address.
    pub closed spec fn per_address(&self) -> Map<u128, (usize, Seq<u64>)> {
        Map::new(
            |k: u128| self.ip_stats@.contains_key(k),
            |k: u128| (self.ip_stats@[k].active_connections, self.ip_stats@[k].recent_connections@),
        )
    }

    /// No address has more active connections than allowed.
    pub open spec fn within_limits(&self) -> bool {
        self.max_conns() matches Some(m) ==> forall|k: u128|
            #[trigger] self.per_address().contains_key(k) ==> self.per_address()[k].0 <= m
    }

    /// Rules with nothing recorded yet.
    pub fn new(allow_ips: Option<Vec<String>>, max_conns_per_ip: Option<usize>, cps_limit: Option<usize>) -> (r:
        Self)
        ensures
            r.allow() == (match allow_ips {
                Some(v) => Some(crate::config::texts(v@)),
                None => None::<Seq<Seq<char>>>,
            }),
            r.max_conns() == max_conns_per_ip,
            r.cps() == cps_limit,
            r.per_address() == Map::<u128, (usize, Seq<u64>)>::empty(),
            r.within_limits(),
    {
        let r = SecurityState { allow_ips, max_conns_per_ip, cps_limit, ip_stats: HashMap::new() };
        assert(r.per_address() =~= Map::<u128, (usize, Seq<u64>)>::empty());
        r
    }

    /// The number of active connections recorded for an address.
    pub fn active_connections(&self, key: u128) -> (r: usize)
        ensures
            r == entry_of(self.per_address(), key).0,
    {
        match self.ip_stats.get(&key) {
            Some(stats) => stats.active_connections,
            None => 0,
        }
    }

    /// Whether the allow list lets an address in.
    fn allows(&self, ip: &str) -> (r: bool)
        ensures
            r == acl_allows(self.allow(), ip@),
    {
        match &self.allow_ips {
            None => true,
            Some(list) => {
                let ghost l = crate::config::texts(list@);
                assert(self.allow() == Some(l));
                let mut i: usize = 0;
                while i < list.len()
                    invariant
                        l == crate::config::texts(list@),
                        self.allow() == Some(l),
                        i <= list@.len(),
                        forall|j: int| 0 <= j < i ==> !#[trigger] pattern_admits(l[j], ip@),
                    decreases list@.len() - i,
                {
                    let p = list[i].as_str();
                    let pc = chars_of(p);
                    let a = chars_of(ip);
                    let any4 = chars_of("0.0.0.0/0");
                    let any6 = chars_of("::/0");
                    if crate::text::eq_chars(pc.as_slice(), a.as_slice()) || crate::text::eq_chars(
                        pc.as_slice(),
                        any4.as_slice(),
                    ) || crate::text::eq_chars(pc.as_slice(), any6.as_slice()) {
                        assert(l[i as int] == list@[i as int]@);
                        assert(self.allow() == Some(l));
                        assert(l.len() == list@.len());
                        assert(pattern_admits(l[i as int], ip@));
                        proof {
                            lemma_acl_witness(l, ip@, i as int);
                        }
                        return true;
                    }
                    i = i + 1;
                }
                assert(!acl_allows(self.allow(), ip@)) by {
                    if acl_allows(self.allow(), ip@) {
                        let k = choose|k: int| 0 <= k < l.len() && #[trigger] pattern_admits(l[k], ip@);
                        assert(0 <= k < i);
                    }
                }
                false
            },
        }
    }

    /// Admits or refuses a connection from an address (`ip` as text, `key` as
    /// a number) at time `now` in nanoseconds. The allow list is checked
    /// first; then, when a per-address limit is set, the address's active
    /// connections and its admissions in the last second.
    pub fn check(&mut self, ip: &str, key: u128, now: u64) -> (r: Result<(), ProxyError>)
        requires
            entry_of(old(self).per_address(), key).0 < usize::MAX,
            old(self).within_limits(),
        ensures
            final(self).allow() == old(self).allow(),
            final(self).max_conns() == old(self).max_conns(),
            final(self).cps() == old(self).cps(),
            final(self).within_limits(),
            ({
                let e = entry_of(old(self).per_address(), key);
                let pruned = within_last_second(e.1, now);
                let limited = old(self).max_conns() is Some || old(self).cps() is Some;
                let too_many = old(self).max_conns() matches Some(m) && e.0 >= m;
                let too_fast = old(self).cps() matches Some(l) && pruned.len() >= l;
                &&& !acl_allows(old(self).allow(), ip@) ==> (r matches Err(ProxyError::ForwardingFailed(m))
                    && m@ == "IP "@ + ip@ + " not in allow list"@ && final(self).per_address() == old(self).per_address())
                &&& (acl_allows(old(self).allow(), ip@) && !limited) ==> (r is Ok && final(self).per_address()
                    == old(self).per_address())
                &&& (acl_allows(old(self).allow(), ip@) && limited && too_many) ==> (r matches Err(
                    ProxyError::ForwardingFailed(m),
                ) && m@ == "Max connections per IP reached for "@ + ip@ && final(self).per_address() == old(self).per_address().insert(key, e))
                &&& (acl_allows(old(self).allow(), ip@) && limited && !too_many && too_fast) ==> (r matches Err(
                    ProxyError::ForwardingFailed(m),
                ) && m@ == "Connection rate limit exceeded for "@ + ip@ && final(self).per_address() == old(self).per_address().insert(key, (e.0, pruned)))
                &&& (acl_allows(old(self).allow(), ip@) && limited && !too_many && !too_fast
                    && old(self).cps() is Some) ==> (r is Ok && final(self).per_address() == old(self).per_address().insert(key, ((e.0 + 1) as usize, pruned.push(now))))
                &&& (acl_allows(old(self).allow(), ip@) && limited && !too_many && old(self).cps() is None)
                    ==> (r is Ok && final(self).per_address() == old(self).per_address().insert(
                    key,
                    ((e.0 + 1) as usize, e.1),
                ))
            }),
    {
        if !self.allows(ip) {
            let mut m = string_from("IP ");
            append_str(&mut m, ip);
            append_str(&mut m, " not in allow list");
            return Err(ProxyError::ForwardingFailed(m));
        }
        if self.max_conns_per_ip.is_none() && self.cps_limit.is_none() {
            return Ok(());
        }
        let ghost before = self.per_address();
        let ghost old_map = self.ip_stats@;
        let mut st = match self.ip_stats.remove(&key) {
            Some(s) => s,
            None => IpSecurityStats::new(),
        };
        assert(self.ip_stats@ == old_map.remove(key));
        assert((st.active_connections, st.recent_connections@) == entry_of(before, key));
        match self.max_conns_per_ip {
            Some(m) => {
                if st.active_connections >= m {
                    self.ip_stats.insert(key, st);
                    proof {
                        self.lemma_per_address_insert(old_map, before, key);
                    }
                    let mut msg = string_from("Max connections per IP reached for ");
                    append_str(&mut msg, ip);
                    return Err(ProxyError::ForwardingFailed(msg));
                }
            },
            None => {},
        }
        match self.cps_limit {
            Some(limit) => {
                let pruned = keep_last_second(&st.recent_connections, now);
                st.recent_connections = pruned;
                if st.recent_connections.len() >= limit {
                    self.ip_stats.insert(key, st);
                    proof {
                        self.lemma_per_address_insert(old_map, before, key);
                    }
                    let mut msg = string_from("Connection rate limit exceeded for ");
                    append_str(&mut msg, ip);
                    return Err(ProxyError::ForwardingFailed(msg));
                }
                st.recent_connections.push(now);
            },
            None => {},
        }
        st.active_connections = st.active_connections + 1;
        self.ip_stats.insert(key, st);
        proof {
            self.lemma_per_address_insert(old_map, before, key);
        }
        Ok(())
    }

    /// The per-address view after putting an entry back under its key.
    proof fn lemma_per_address_insert(&self, old_map: Map<u128, IpSecurityStats>, before: Map<u128, (usize, Seq<u64>)>, key: u128)
        requires
            self.ip_stats@.contains_key(key),
            before == Map::new(
                |k: u128| old_map.contains_key(k),
                |k: u128| (old_map[k].active_connections, old_map[k].recent_connections@),
            ),
            forall|k: u128| k != key ==> (#[trigger] self.ip_stats@.contains_key(k) == old_map.contains_key(k)),
            forall|k: u128| k != key && old_map.contains_key(k) ==> #[trigger] self.ip_stats@[k] == old_map[k],
        ensures
            self.per_address() == before.insert(
                key,
                (self.ip_stats@[key].active_connections, self.ip_stats@[key].recent_connections@),
            ),
    {
        assert(self.per_address() =~= before.insert(
            key,
            (self.ip_stats@[key].active_connections, self.ip_stats@[key].recent_connections@),
        ));
    }

    /// A connection from the address ended: when a per-address connection
    /// limit is set, its active count goes down by one (not below zero).
    pub fn register_disconnection(&mut self, key: u128)
        requires
            old(self).within_limits(),
        ensures
            final(self).allow() == old(self).allow(),
            final(self).max_conns() == old(self).max_conns(),
            final(self).cps() == old(self).cps(),
            final(self).within_limits(),
            (old(self).max_conns() is Some && old(self).per_address().contains_key(key)) ==> final(self).per_address() == old(self).per_address().insert(
                key,
                (
                    (if old(self).per_address()[key].0 > 0 {
                        old(self).per_address()[key].0 - 1
                    } else {
                        0
                    }) as usize,
                    old(self).per_address()[key].1,
                ),
            ),
            !(old(self).max_conns() is Some && old(self).per_address().contains_key(key)) ==> final(self).per_address() == old(self).per_address(),
    {
        if self.max_conns_per_ip.is_none() {
            return ;
        }
        let ghost before = self.per_address();
        let ghost old_map = self.ip_stats@;
        match self.ip_stats.remove(&key) {
            None => {
                assert(self.ip_stats@ =~= old_map);
            },
            Some(mut st) => {
                st.active_connections = st.active_connections.saturating_sub(1);
                self.ip_stats.insert(key, st);
                proof {
                    self.lemma_per_address_insert(old_map, before, key);
                }
            },
        }
    }
}

/// The admission times less than a second before `now`, in order.
fn keep_last_second(s: &Vec<u64>, now: u64) -> (r: Vec<u64>)
    ensures
        r@ == within_last_second(s@, now),
{
    let mut r: Vec<u64> = Vec::new();
    let mut i: usize = 0;
    while i < s.len()
        invariant
            i <= s@.len(),
            r@ == within_last_second(s@.take(i as int), now),
        decreases s@.len() - i,
    {
        assert(s@.take(i + 1).drop_last() =~= s@.take(i as int));
        let t = s[i];
        if now.saturating_sub(t) < ONE_SECOND_NS {
            r.push(t);
        }
        i = i + 1;
    }
    assert(s@.take(s@.len() as int) =~= s@);
    r
}

/// The rate window keeps exactly the admissions less than a second
/// (1_000_000_000 ns) before `now`, in their order; an admission recorded
/// after `now` counts as recent.
pub proof fn lemma_rate_window_is_last_second(s: Seq<u64>, now: u64)
    ensures
        within_last_second(s, now) == s.filter(|t: u64| (now as int) - (t as int) < 1_000_000_000),
    decreases s.len(),
{
    reveal(Seq::filter);
    if s.len() > 0 {
        lemma_rate_window_is_last_second(s.drop_last(), now);
    }
}

/// A connection is refused for its rate exactly when at least `limit`
/// admissions of its address fall less than a second before `now`.
pub proof fn lemma_rate_limit_counts_last_second(s: Seq<u64>, now: u64, limit: usize)
    ensures
        (within_last_second(s, now).len() >= limit) <==> s.filter(
            |t: u64| (now as int) - (t as int) < 1_000_000_000,
        ).len() >= limit,
{
    lemma_rate_window_is_last_second(s, now);
}

/// An allow list lets an address in exactly when it holds the address itself
/// or one of the catch-alls "0.0.0.0/0" and "::/0"; with no list every
/// address is let in.
pub proof fn lemma_allow_list(allow: Option<Seq<Seq<char>>>, ip: Seq<char>)
    ensures
        allow is None ==> acl_allows(allow, ip),
        allow matches Some(l) ==> (acl_allows(allow, ip) <==> (l.contains(ip) || l.contains("0.0.0.0/0"@)
            || l.contains("::/0"@))),
{
    if let Some(l) = allow {
        if l.contains(ip) {
            let j = choose|j: int| 0 <= j < l.len() && l[j] == ip;
            lemma_acl_witness(l, ip, j);
        }
        if l.contains("0.0.0.0/0"@) {
            let j = choose|j: int| 0 <= j < l.len() && l[j] == "0.0.0.0/0"@;
            lemma_acl_witness(l, ip, j);
        }
        if l.contains("::/0"@) {
            let j = choose|j: int| 0 <= j < l.len() && l[j] == "::/0"@;
            lemma_acl_witness(l, ip, j);
        }
        if acl_allows(allow, ip) {
            let j = choose|j: int| 0 <= j < l.len() && #[trigger] pattern_admits(l[j], ip);
            assert(l[j] == ip || l[j] == "0.0.0.0/0"@ || l[j] == "::/0"@);
        }
    }
}

} // verus!
