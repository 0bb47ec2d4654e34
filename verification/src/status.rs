//! Small settings and reports: service state, connection timeouts, cipher
//! choice, host checks, handler pool summaries and health records.

use vstd::prelude::*;
use crate::error::{AppError, SystemError};
use crate::text::{append_decimal, append_str, chars_of, contains, decimal, eq_chars, str_contains, string_from};

verus! {

// ---------------------------------------------------------------------------
// Service state
// ---------------------------------------------------------------------------

/// State of the installed system service.
#[derive(Debug, Clone, Copy, PartialEq, Eq, Structural)]
pub enum ServiceStatus {
    NotInstalled,
    Stopped,
    Running,
}

impl ServiceStatus {
    /// The state in words.
    pub fn as_str(&self) -> (r: &'static str)
        ensures
            r@ == match *self {
                ServiceStatus::NotInstalled => "not installed"@,
                ServiceStatus::Stopped => "stopped"@,
                ServiceStatus::Running => "running"@,
            },
    {
        match self {
            ServiceStatus::NotInstalled => "not installed",
            ServiceStatus::Stopped => "stopped",
            ServiceStatus::Running => "running",
        }
    }

    /// The state as a symbol.
    pub fn emoji(&self) -> (r: &'static str)
        ensures
            r@ == match *self {
                ServiceStatus::NotInstalled => "❌"@,
                ServiceStatus::Stopped => "⏸️"@,
                ServiceStatus::Running => "✅"@,
            },
    {
        match self {
            ServiceStatus::NotInstalled => "❌",
            ServiceStatus::Stopped => "⏸️",
            ServiceStatus::Running => "✅",
        }
    }
}

// ---------------------------------------------------------------------------
// Timeouts
// ---------------------------------------------------------------------------

/// Timeouts of a forwarded connection, in seconds.
#[derive(Debug, Clone, Copy, PartialEq, Eq, Structural)]
pub struct TimeoutConfig {
    pub read_timeout: u64,
    pub write_timeout: u64,
    pub idle_timeout: u64,
    pub connect_timeout: u64,
}

impl Default for TimeoutConfig {
    fn default() -> (r: Self)
        ensures
            r == (TimeoutConfig { read_timeout: 30, write_timeout: 10, idle_timeout: 60, connect_timeout: 10 }),
    {
        TimeoutConfig { read_timeout: 30, write_timeout: 10, idle_timeout: 60, connect_timeout: 10 }
    }
}

impl TimeoutConfig {
    /// Shorter timeouts for interactive use.
    pub fn interactive() -> (r: Self)
        ensures
            r == (TimeoutConfig { read_timeout: 10, write_timeout: 5, idle_timeout: 30, connect_timeout: 5 }),
    {
        TimeoutConfig { read_timeout: 10, write_timeout: 5, idle_timeout: 30, connect_timeout: 5 }
    }

    /// Longer timeouts for long-running connections.
    pub fn persistent() -> (r: Self)
        ensures
            r == (TimeoutConfig {
                read_timeout: 300,
                write_timeout: 30,
                idle_timeout: 600,
                connect_timeout: 30,
            }),
    {
        TimeoutConfig { read_timeout: 300, write_timeout: 30, idle_timeout: 600, connect_timeout: 30 }
    }
}

/// Interactive timeouts are never longer, and persistent ones never shorter,
/// than the defaults.
pub proof fn lemma_timeout_order(i: TimeoutConfig, d: TimeoutConfig, p: TimeoutConfig)
    requires
        i == (TimeoutConfig { read_timeout: 10, write_timeout: 5, idle_timeout: 30, connect_timeout: 5 }),
        d == (TimeoutConfig { read_timeout: 30, write_timeout: 10, idle_timeout: 60, connect_timeout: 10 }),
        p == (TimeoutConfig { read_timeout: 300, write_timeout: 30, idle_timeout: 600, connect_timeout: 30 }),
    ensures
        i.read_timeout <= d.read_timeout <= p.read_timeout,
        i.write_timeout <= d.write_timeout <= p.write_timeout,
        i.idle_timeout <= d.idle_timeout <= p.idle_timeout,
        i.connect_timeout <= d.connect_timeout <= p.connect_timeout,
{
}

// ---------------------------------------------------------------------------
// Ciphers and the client handshake
// ---------------------------------------------------------------------------

/// The TLS cipher suite to prefer, given whether the CPU has AES
/// instructions.
pub fn optimal_cipher_suite(aes_ni: bool) -> (r: &'static str)
    ensures
        aes_ni ==> r@ == "TLS_AES_256_GCM_SHA384 (AES-NI hardware acceleration)"@,
        !aes_ni ==> r@ == "TLS_AES_128_GCM_SHA256 (ChaCha20 fallback for ARM/no-AES)"@,
{
    if aes_ni {
        "TLS_AES_256_GCM_SHA384 (AES-NI hardware acceleration)"
    } else {
        "TLS_AES_128_GCM_SHA256 (ChaCha20 fallback for ARM/no-AES)"
    }
}

/// The client side of the encrypted handshake: its token and the hash of its
/// configuration.
pub struct ClientHandshake {
    auth_token: String,
    config_hash: String,
}

impl ClientHandshake {
    /// A handshake carrying a token and a configuration hash.
    pub fn new(auth_token: String, config_hash: String) -> (r: Self)
        ensures
            r.token()@ == auth_token@,
            r.hash()@ == config_hash@,
    {
        ClientHandshake { auth_token, config_hash }
    }

    pub closed spec fn token(&self) -> String {
        self.auth_token
    }

    pub closed spec fn hash(&self) -> String {
        self.config_hash
    }

    /// The token.
    pub fn auth_token(&self) -> (r: &String)
        ensures
            r@ == self.token()@,
    {
        &self.auth_token
    }

    /// The configuration hash.
    pub fn config_hash(&self) -> (r: &String)
        ensures
            r@ == self.hash()@,
    {
        &self.config_hash
    }
}

// ---------------------------------------------------------------------------
// Host checks
// ---------------------------------------------------------------------------

/// `nix::unistd::pipe`: opens a pipe and lets it close again; the error's
/// text when none can be opened. Nothing is claimed of the outcome.
#[verifier::external_body]
fn open_test_pipe() -> (r: Result<(), String>) {
    match nix::unistd::pipe() {
        Ok(_) => Ok(()),
        Err(e) => Err(format!("{}", e)),
    }
}

/// Checks that the host can forward efficiently: the pipes that kernel
/// zero-copy needs can be opened.
pub fn check_system_requirements() -> (r: Result<(), AppError>)
    ensures
        r is Ok || (r matches Err(AppError::System(SystemError::SystemCallFailed(m))) && (exists|e: Seq<char>|
            m@ == "Failed to create test pipe: "@ + e || m@ == "Failed to create second test pipe: "@ + e)),
{
    match open_test_pipe() {
        Ok(()) => {},
        Err(e) => {
            let mut m = string_from("Failed to create test pipe: ");
            append_str(&mut m, e.as_str());
            return Err(AppError::System(SystemError::SystemCallFailed(m)));
        },
    }
    match open_test_pipe() {
        Ok(()) => Ok(()),
        Err(e) => {
            let mut m = string_from("Failed to create second test pipe: ");
            append_str(&mut m, e.as_str());
            Err(AppError::System(SystemError::SystemCallFailed(m)))
        },
    }
}

/// The mean duration of the completed handshakes in microseconds, rounded
/// down; zero before the first.
pub fn average_handshake_time_us(total_handshake_time_us: u64, handshakes_completed: u64) -> (r: u64)
    ensures
        handshakes_completed == 0 ==> r == 0,
        handshakes_completed > 0 ==> r == total_handshake_time_us / handshakes_completed,
{
    if handshakes_completed == 0 {
        0
    } else {
        total_handshake_time_us / handshakes_completed
    }
}

/// Whether the control groups of the first process (the text of
/// `/proc/1/cgroup`) name a container runtime.
pub fn is_container_cgroup(cgroup_content: &str) -> (r: bool)
    ensures
        r == (contains(cgroup_content@, "docker"@) || contains(cgroup_content@, "containerd"@)),
{
    let text = chars_of(cgroup_content);
    str_contains(text.as_slice(), "docker") || str_contains(text.as_slice(), "containerd")
}

/// Tunes the host for forwarding; nothing needs changing, so this succeeds.
pub fn optimize_system_settings() -> (r: Result<(), AppError>)
    ensures
        r is Ok,
{
    Ok(())
}

/// What the host is.
#[derive(Debug, Clone)]
pub struct SystemInfo {
    pub os: String,
    pub arch: String,
    pub target_env: String,
    pub family: String,
}

impl SystemInfo {
    /// The report of the host, one item per line.
    pub fn summary(&self) -> (r: String)
        ensures
            r@ == "System Information:\n- OS: "@ + self.os@ + "\n- Architecture: "@ + self.arch@
                + "\n- Environment: "@ + self.target_env@ + "\n- Family: "@ + self.family@,
    {
        let mut r = string_from("System Information:\n- OS: ");
        append_str(&mut r, self.os.as_str());
        append_str(&mut r, "\n- Architecture: ");
        append_str(&mut r, self.arch.as_str());
        append_str(&mut r, "\n- Environment: ");
        append_str(&mut r, self.target_env.as_str());
        append_str(&mut r, "\n- Family: ");
        append_str(&mut r, self.family.as_str());
        r
    }
}

// ---------------------------------------------------------------------------
// Handler pools
// ---------------------------------------------------------------------------

/// Totals over the handlers of a plain connection pool.
#[derive(Debug, Clone, Copy, PartialEq, Eq, Structural)]
pub struct PoolStats {
    pub total_handlers: usize,
    pub total_max_connections: usize,
    pub total_active_connections: usize,
    pub total_available_slots: usize,
}

/// The saturating sum of the limits; `usize::MAX` when there are none.
pub open spec fn limit_total(s: Seq<usize>) -> usize
    decreases s.len(),
{
    if s.len() == 0 {
        usize::MAX
    } else if s.len() == 1 {
        s[0]
    } else {
        let t = limit_total(s.drop_last()) + s.last();
        if t > usize::MAX {
            usize::MAX
        } else {
            t as usize
        }
    }
}

impl PoolStats {
    /// The totals for handlers with these connection limits: no active
    /// connection is counted, so every slot is available.
    pub fn from_limits(max_connections: &Vec<usize>) -> (r: Self)
        ensures
            r.total_handlers == max_connections@.len(),
            r.total_max_connections == limit_total(max_connections@),
            r.total_active_connections == 0,
            r.total_available_slots == r.total_max_connections,
    {
        let n = max_connections.len();
        let mut total: usize = usize::MAX;
        if n > 0 {
            total = max_connections[0];
            let mut i: usize = 1;
            assert(max_connections@.take(1).drop_last() =~= Seq::<usize>::empty());
            assert(limit_total(max_connections@.take(1)) == max_connections@[0]);
            while i < n
                invariant
                    n == max_connections@.len(),
                    1 <= i <= n,
                    total == limit_total(max_connections@.take(i as int)),
                decreases n - i,
            {
                assert(max_connections@.take(i + 1).drop_last() =~= max_connections@.take(i as int));
                total = total.saturating_add(max_connections[i]);
                i = i + 1;
            }
            assert(max_connections@.take(n as int) =~= max_connections@);
        }
        PoolStats {
            total_handlers: n,
            total_max_connections: total,
            total_active_connections: 0,
            total_available_slots: total,
        }
    }

    /// The report, one total per line.
    pub fn summary(&self) -> (r: String)
        ensures
            r@ == "Connection Pool Stats:\n- Total Handlers: "@ + decimal(self.total_handlers as nat)
                + "\n- Total Max Connections: "@ + decimal(self.total_max_connections as nat)
                + "\n- Total Active Connections: "@ + decimal(self.total_active_connections as nat)
                + "\n- Total Available Slots: "@ + decimal(self.total_available_slots as nat),
    {
        let mut r = string_from("Connection Pool Stats:\n- Total Handlers: ");
        append_decimal(&mut r, self.total_handlers as u64);
        append_str(&mut r, "\n- Total Max Connections: ");
        append_decimal(&mut r, self.total_max_connections as u64);
        append_str(&mut r, "\n- Total Active Connections: ");
        append_decimal(&mut r, self.total_active_connections as u64);
        append_str(&mut r, "\n- Total Available Slots: ");
        append_decimal(&mut r, self.total_available_slots as u64);
        r
    }
}

/// Totals over the handlers of a resilient connection pool.
#[derive(Debug, Clone, Copy, PartialEq, Eq, Structural)]
pub struct EnhancedPoolStats {
    pub total_handlers: usize,
    pub total_max_connections: usize,
    pub total_active_connections: usize,
    pub total_available_slots: usize,
    pub all_healthy: bool,
    pub total_sessions: usize,
}

/// What one resilient handler reports.
#[derive(Debug, Clone, Copy, PartialEq, Eq, Structural)]
pub struct HandlerFigures {
    pub max_connections: usize,
    pub active_connections: usize,
    pub available_slots: usize,
    pub active_sessions: usize,
    pub is_healthy: bool,
}

pub open spec fn sum_of(s: Seq<HandlerFigures>, f: spec_fn(HandlerFigures) -> usize) -> nat
    decreases s.len(),
{
    if s.len() == 0 {
        0
    } else {
        sum_of(s.drop_last(), f) + f(s.last()) as nat
    }
}

proof fn lemma_sum_of_prefix(s: Seq<HandlerFigures>, f: spec_fn(HandlerFigures) -> usize, i: int)
    requires
        0 <= i <= s.len(),
    ensures
        sum_of(s.take(i), f) <= sum_of(s, f),
    decreases s.len() - i,
{
    if i < s.len() {
        assert(s.take(i + 1).drop_last() =~= s.take(i));
        lemma_sum_of_prefix(s, f, i + 1);
    } else {
        assert(s.take(i) =~= s);
    }
}

pub open spec fn max_of(h: HandlerFigures) -> usize {
    h.max_connections
}

pub open spec fn active_of(h: HandlerFigures) -> usize {
    h.active_connections
}

pub open spec fn slots_of(h: HandlerFigures) -> usize {
    h.available_slots
}

pub open spec fn sessions_of(h: HandlerFigures) -> usize {
    h.active_sessions
}

impl EnhancedPoolStats {
    /// The totals over the handlers; the pool is healthy when every handler
    /// is.
    pub fn collect(handlers: &Vec<HandlerFigures>) -> (r: Self)
        requires
            sum_of(handlers@, |h: HandlerFigures| max_of(h)) <= usize::MAX,
            sum_of(handlers@, |h: HandlerFigures| active_of(h)) <= usize::MAX,
            sum_of(handlers@, |h: HandlerFigures| slots_of(h)) <= usize::MAX,
            sum_of(handlers@, |h: HandlerFigures| sessions_of(h)) <= usize::MAX,
        ensures
            r.total_handlers == handlers@.len(),
            r.total_max_connections == sum_of(handlers@, |h: HandlerFigures| max_of(h)),
            r.total_active_connections == sum_of(handlers@, |h: HandlerFigures| active_of(h)),
            r.total_available_slots == sum_of(handlers@, |h: HandlerFigures| slots_of(h)),
            r.total_sessions == sum_of(handlers@, |h: HandlerFigures| sessions_of(h)),
            r.all_healthy == (forall|i: int| 0 <= i < handlers@.len() ==> (#[trigger] handlers@[i]).is_healthy),
    {
        let ghost fm = |h: HandlerFigures| max_of(h);
        let ghost fa = |h: HandlerFigures| active_of(h);
        let ghost fs = |h: HandlerFigures| slots_of(h);
        let ghost fe = |h: HandlerFigures| sessions_of(h);
        let mut tm: usize = 0;
        let mut ta: usize = 0;
        let mut ts: usize = 0;
        let mut te: usize = 0;
        let mut healthy = true;
        let mut i: usize = 0;
        while i < handlers.len()
            invariant
                i <= handlers@.len(),
                sum_of(handlers@, fm) <= usize::MAX,
                sum_of(handlers@, fa) <= usize::MAX,
                sum_of(handlers@, fs) <= usize::MAX,
                sum_of(handlers@, fe) <= usize::MAX,
                fm == (|h: HandlerFigures| max_of(h)),
                fa == (|h: HandlerFigures| active_of(h)),
                fs == (|h: HandlerFigures| slots_of(h)),
                fe == (|h: HandlerFigures| sessions_of(h)),
                tm == sum_of(handlers@.take(i as int), fm),
                ta == sum_of(handlers@.take(i as int), fa),
                ts == sum_of(handlers@.take(i as int), fs),
                te == sum_of(handlers@.take(i as int), fe),
                healthy == (forall|j: int| 0 <= j < i ==> (#[trigger] handlers@[j]).is_healthy),
            decreases handlers@.len() - i,
        {
            assert(handlers@.take(i + 1).drop_last() =~= handlers@.take(i as int));
            proof {
                lemma_sum_of_prefix(handlers@, fm, i + 1);
                lemma_sum_of_prefix(handlers@, fa, i + 1);
                lemma_sum_of_prefix(handlers@, fs, i + 1);
                lemma_sum_of_prefix(handlers@, fe, i + 1);
            }
            let h = handlers[i];
            tm = tm + h.max_connections;
            ta = ta + h.active_connections;
            ts = ts + h.available_slots;
            te = te + h.active_sessions;
            if !h.is_healthy {
                healthy = false;
            }
            i = i + 1;
        }
        assert(handlers@.take(handlers@.len() as int) =~= handlers@);
        EnhancedPoolStats {
            total_handlers: handlers.len(),
            total_max_connections: tm,
            total_active_connections: ta,
            total_available_slots: ts,
            all_healthy: healthy,
            total_sessions: te,
        }
    }

    /// The report, one total per line.
    pub fn summary(&self) -> (r: String)
        ensures
            r@ == "Enhanced Pool Stats:\n- Total Handlers: "@ + decimal(self.total_handlers as nat)
                + "\n- Total Max Connections: "@ + decimal(self.total_max_connections as nat)
                + "\n- Total Active Connections: "@ + decimal(self.total_active_connections as nat)
                + "\n- Total Available Slots: "@ + decimal(self.total_available_slots as nat)
                + "\n- All Healthy: "@ + (if self.all_healthy {
                "true"@
            } else {
                "false"@
            }) + "\n- Total Active Sessions: "@ + decimal(self.total_sessions as nat),
    {
        let mut r = string_from("Enhanced Pool Stats:\n- Total Handlers: ");
        append_decimal(&mut r, self.total_handlers as u64);
        append_str(&mut r, "\n- Total Max Connections: ");
        append_decimal(&mut r, self.total_max_connections as u64);
        append_str(&mut r, "\n- Total Active Connections: ");
        append_decimal(&mut r, self.total_active_connections as u64);
        append_str(&mut r, "\n- Total Available Slots: ");
        append_decimal(&mut r, self.total_available_slots as u64);
        append_str(&mut r, "\n- All Healthy: ");
        if self.all_healthy {
            append_str(&mut r, "true");
        } else {
            append_str(&mut r, "false");
        }
        append_str(&mut r, "\n- Total Active Sessions: ");
        append_decimal(&mut r, self.total_sessions as u64);
        r
    }
}

// ---------------------------------------------------------------------------
// Health records
// ---------------------------------------------------------------------------

/// Health of the proxy or of one of its services.
#[derive(Debug, Clone, Copy, PartialEq, Eq, Structural)]
pub enum HealthStatus {
    Healthy,
    Degraded,
    Unhealthy,
}

/// Health of one service. Times are seconds since the Unix epoch.
#[derive(Debug, Clone)]
pub struct ServiceHealth {
    pub name: String,
    pub status: HealthStatus,
    pub response_time_ms: u64,
    pub last_check: u64,
    pub details: Vec<(String, String)>,
}

/// Health of the proxy as a whole.
#[derive(Debug, Clone)]
pub struct SystemHealth {
    pub status: HealthStatus,
    pub uptime_seconds: u64,
    pub last_check: u64,
    pub services: Vec<ServiceHealth>,
}

/// One recorded error.
#[derive(Debug, Clone)]
pub struct ErrorEvent {
    pub timestamp: u64,
    pub error_type: String,
    pub error_message: String,
    pub context: Vec<(String, String)>,
}

/// Errors kept for inspection.
pub const MAX_RECENT_ERRORS: usize = 100;

/// The recent errors and the number of errors seen.
pub struct ErrorLog {
    total_errors: u64,
    recent: Vec<ErrorEvent>,
    by_type: Vec<(String, u64)>,
}

/// The counts by error type, in the order the types first occurred.
pub open spec fn type_counts_view(v: Seq<(String, u64)>) -> Seq<(Seq<char>, u64)> {
    v.map_values(|e: (String, u64)| (e.0@, e.1))
}

/// The position of the entry for an error type, or -1.
pub open spec fn type_index(s: Seq<(Seq<char>, u64)>, t: Seq<char>) -> int
    decreases s.len(),
{
    if s.len() == 0 {
        -1
    } else if s[0].0 == t {
        0
    } else {
        let k = type_index(s.drop_first(), t);
        if k < 0 {
            -1
        } else {
            k + 1
        }
    }
}

/// The count of an error type (zero for a type not seen).
pub open spec fn type_count(s: Seq<(Seq<char>, u64)>, t: Seq<char>) -> u64 {
    let k = type_index(s, t);
    if k >= 0 {
        s[k].1
    } else {
        0
    }
}

/// The counts after one more error of type `t`: its entry goes up by one
/// (wrapping around), or a new entry with one is added at the end.
pub open spec fn bump_type(s: Seq<(Seq<char>, u64)>, t: Seq<char>) -> Seq<(Seq<char>, u64)> {
    let k = type_index(s, t);
    if k >= 0 {
        s.update(k, (t, vstd::wrapping::u64_specs::wrapping_add(s[k].1, 1)))
    } else {
        s.push((t, 1u64))
    }
}

/// The first `i` entries are for other types, and entry `i` (when there is
/// one) is for `t`: then `i` is where `t` is found.
proof fn lemma_type_index(s: Seq<(Seq<char>, u64)>, t: Seq<char>, i: int)
    requires
        0 <= i <= s.len(),
        forall|j: int| 0 <= j < i ==> s[j].0 != t,
        i < s.len() ==> s[i].0 == t,
    ensures
        i < s.len() ==> type_index(s, t) == i,
        i == s.len() ==> type_index(s, t) == -1,
    decreases s.len(),
{
    if s.len() > 0 && i > 0 {
        lemma_type_index(s.drop_first(), t, i - 1);
    }
}

/// One more error of type `t` in the counts.
fn count_type(v: &mut Vec<(String, u64)>, t: &String)
    ensures
        type_counts_view(final(v)@) == bump_type(type_counts_view(old(v)@), t@),
{
    let tc = chars_of(t.as_str());
    let ghost s = type_counts_view(v@);
    let mut i: usize = 0;
    while i < v.len()
        invariant
            i <= v@.len(),
            v@ == old(v)@,
            s == type_counts_view(v@),
            tc@ == t@,
            forall|j: int| 0 <= j < i ==> s[j].0 != t@,
        decreases v@.len() - i,
    {
        let k = chars_of(v[i].0.as_str());
        if eq_chars(k.as_slice(), tc.as_slice()) {
            proof {
                lemma_type_index(s, t@, i as int);
            }
            let n = v[i].1.wrapping_add(1);
            let name = t.clone();
            assert(name@ == t@);
            v.set(i, (name, n));
            assert(type_counts_view(v@) =~= bump_type(s, t@));
            return;
        }
        i = i + 1;
    }
    proof {
        lemma_type_index(s, t@, i as int);
    }
    let name = t.clone();
    assert(name@ == t@);
    v.push((name, 1u64));
    assert(type_counts_view(v@) =~= bump_type(s, t@));
}

impl ErrorLog {
    #[verifier::type_invariant]
    spec fn bounded(self) -> bool {
        self.recent@.len() <= MAX_RECENT_ERRORS
    }

    /// The recent errors, oldest first.
    pub closed spec fn events(self) -> Seq<ErrorEvent> {
        self.recent@
    }

    /// Errors seen in all.
    pub closed spec fn count(self) -> u64 {
        self.total_errors
    }

    /// Errors seen by type, in the order the types first occurred.
    pub closed spec fn type_counts(self) -> Seq<(Seq<char>, u64)> {
        type_counts_view(self.by_type@)
    }

    /// An empty log.
    pub fn new() -> (r: Self)
        ensures
            r.events().len() == 0,
            r.count() == 0,
            r.type_counts() == Seq::<(Seq<char>, u64)>::empty(),
    {
        let r = ErrorLog { total_errors: 0, recent: Vec::new(), by_type: Vec::new() };
        assert(r.type_counts() =~= Seq::<(Seq<char>, u64)>::empty());
        r
    }

    /// Records an error: the count goes up (wrapping around) and the error
    /// joins the recent ones, of which only the last hundred are kept.
    pub fn record(&mut self, event: ErrorEvent)
        ensures
            final(self).count() == vstd::wrapping::u64_specs::wrapping_add(old(self).count(), 1),
            old(self).events().len() < MAX_RECENT_ERRORS ==> final(self).events() == old(self).events().push(
                event,
            ),
            old(self).events().len() == MAX_RECENT_ERRORS ==> final(self).events() == old(self).events().push(
                event,
            ).drop_first(),
            final(self).events().len() <= MAX_RECENT_ERRORS,
            final(self).type_counts() == bump_type(old(self).type_counts(), event.error_type@),
    {
        proof {
            use_type_invariant(&*self);
        }
        let mut by_type: Vec<(String, u64)> = Vec::new();
        std::mem::swap(&mut by_type, &mut self.by_type);
        count_type(&mut by_type, &event.error_type);
        let mut recent: Vec<ErrorEvent> = Vec::new();
        std::mem::swap(&mut recent, &mut self.recent);
        recent.push(event);
        if recent.len() > MAX_RECENT_ERRORS {
            let _ = recent.remove(0);
            assert(recent@ =~= old(self).events().push(event).drop_first());
        }
        let total = self.total_errors.wrapping_add(1);
        *self = ErrorLog { total_errors: total, recent, by_type };
    }

    /// Errors seen of a type.
    pub fn errors_of_type(&self, error_type: &str) -> (r: u64)
        ensures
            r == type_count(self.type_counts(), error_type@),
    {
        let t = chars_of(error_type);
        let mut i: usize = 0;
        while i < self.by_type.len()
            invariant
                i <= self.by_type@.len(),
                t@ == error_type@,
                forall|j: int| 0 <= j < i ==> type_counts_view(self.by_type@)[j].0 != t@,
            decreases self.by_type@.len() - i,
        {
            let k = chars_of(self.by_type[i].0.as_str());
            if eq_chars(k.as_slice(), t.as_slice()) {
                proof {
                    lemma_type_index(type_counts_view(self.by_type@), t@, i as int);
                }
                return self.by_type[i].1;
            }
            i = i + 1;
        }
        proof {
            lemma_type_index(type_counts_view(self.by_type@), t@, i as int);
        }
        0
    }

    /// Errors seen in all.
    pub fn total_errors(&self) -> (r: u64)
        ensures
            r == self.count(),
    {
        self.total_errors
    }

    /// How many recent errors are kept.
    pub fn recent_len(&self) -> (r: usize)
        ensures
            r == self.events().len(),
    {
        self.recent.len()
    }

    /// The recent error at a position, oldest first.
    pub fn recent_at(&self, i: usize) -> (r: &ErrorEvent)
        requires
            i < self.events().len(),
        ensures
            *r == self.events()[i as int],
    {
        &self.recent[i]
    }
}

/// Running totals of the connections seen by the monitor.
#[derive(Debug, Clone, Copy, PartialEq, Eq, Structural)]
pub struct ConnectionTotals {
    pub total_connections: u64,
    pub active_connections: u64,
    pub failed_connections: u64,
    /// Mean duration of the closed connections, in milliseconds.
    pub avg_connection_duration_ms: u64,
    pub total_bytes_transferred: u64,
    pub total_packets_transferred: u64,
}

impl ConnectionTotals {
    /// Nothing seen yet.
    pub fn new() -> (r: Self)
        ensures
            r.total_connections == 0,
            r.active_connections == 0,
            r.failed_connections == 0,
            r.avg_connection_duration_ms == 0,
            r.total_bytes_transferred == 0,
            r.total_packets_transferred == 0,
    {
        ConnectionTotals {
            total_connections: 0,
            active_connections: 0,
            failed_connections: 0,
            avg_connection_duration_ms: 0,
            total_bytes_transferred: 0,
            total_packets_transferred: 0,
        }
    }

    /// A connection opened: it counts, and is active.
    pub fn record_connection_established(&mut self)
        requires
            old(self).total_connections < u64::MAX,
            old(self).active_connections < u64::MAX,
        ensures
            *final(self) == (ConnectionTotals {
                total_connections: (old(self).total_connections + 1) as u64,
                active_connections: (old(self).active_connections + 1) as u64,
                ..*old(self)
            }),
    {
        self.total_connections = self.total_connections + 1;
        self.active_connections = self.active_connections + 1;
    }

    /// A connection closed after `duration_ms`: one fewer is active (never
    /// below zero), and the mean duration takes it in as the latest of all
    /// the connections counted.
    pub fn record_connection_closed(&mut self, duration_ms: u64)
        requires
            old(self).total_connections > 0 ==> old(self).avg_connection_duration_ms * (
            old(self).total_connections - 1) + duration_ms <= u64::MAX,
        ensures
            final(self).active_connections == (if old(self).active_connections > 0 {
                old(self).active_connections - 1
            } else {
                0
            }),
            final(self).avg_connection_duration_ms == (if old(self).total_connections > 0 {
                ((old(self).avg_connection_duration_ms * (old(self).total_connections - 1) + duration_ms)
                    / old(self).total_connections as int) as u64
            } else {
                old(self).avg_connection_duration_ms
            }),
            final(self).total_connections == old(self).total_connections,
            final(self).failed_connections == old(self).failed_connections,
            final(self).total_bytes_transferred == old(self).total_bytes_transferred,
            final(self).total_packets_transferred == old(self).total_packets_transferred,
    {
        if self.active_connections > 0 {
            self.active_connections = self.active_connections - 1;
        }
        let total = self.total_connections;
        if total > 0 {
            let avg = self.avg_connection_duration_ms;
            assert(avg * (total - 1) <= u64::MAX) by (nonlinear_arith)
                requires
                    avg * (total - 1) + duration_ms <= u64::MAX,
            ;
            let weighted = avg * (total - 1) + duration_ms;
            self.avg_connection_duration_ms = weighted / total;
        }
    }

    /// A connection attempt failed.
    pub fn record_connection_failed(&mut self)
        requires
            old(self).failed_connections < u64::MAX,
        ensures
            *final(self) == (ConnectionTotals {
                failed_connections: (old(self).failed_connections + 1) as u64,
                ..*old(self)
            }),
    {
        self.failed_connections = self.failed_connections + 1;
    }

    /// Bytes and packets carried.
    pub fn record_data_transfer(&mut self, bytes: u64, packets: u64)
        requires
            old(self).total_bytes_transferred + bytes <= u64::MAX,
            old(self).total_packets_transferred + packets <= u64::MAX,
        ensures
            *final(self) == (ConnectionTotals {
                total_bytes_transferred: (old(self).total_bytes_transferred + bytes) as u64,
                total_packets_transferred: (old(self).total_packets_transferred + packets) as u64,
                ..*old(self)
            }),
    {
        self.total_bytes_transferred = self.total_bytes_transferred + bytes;
        self.total_packets_transferred = self.total_packets_transferred + packets;
    }
}

/// The mean duration stays between the smallest and largest of the old
/// mean and the new duration.
pub proof fn lemma_mean_duration_between(avg: u64, total: u64, duration: u64)
    requires
        total > 0,
    ensures
        (if avg <= duration { avg as int } else { duration as int }) <= (avg * (total - 1) + duration) / (
        total as int) <= (if avg <= duration { duration as int } else { avg as int }),
{
    let lo: int = if avg <= duration { avg as int } else { duration as int };
    let hi: int = if avg <= duration { duration as int } else { avg as int };
    let w: int = avg * (total - 1) + duration;
    assert(lo * total <= w && w <= hi * total) by (nonlinear_arith)
        requires
            total > 0,
            lo <= avg,
            lo <= duration,
            avg <= hi,
            duration <= hi,
            w == avg * (total - 1) + duration,
    ;
    assert(lo <= w / (total as int) && w / (total as int) <= hi) by (nonlinear_arith)
        requires
            total > 0,
            lo * total <= w,
            w <= hi * total,
    ;
}

} // verus!
