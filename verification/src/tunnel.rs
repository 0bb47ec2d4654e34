//! The decisions of both ends of a reverse tunnel: what the server answers a
//! client hello, what a client sends and makes of the answer, how it retries,
//! and where tunnel streams are routed.

use vstd::prelude::*;
use crate::config::{
    before_last_colon, opt_view, port_outcome, texts, value_error_text, ConfigFile, ReverseProxySection,
};
use crate::error::ReverseProxyError;
use crate::loader::utf8_encoding;
use crate::protocol::{
    config_hash, config_hash_of, header_port, ControlMessage, HandshakeStatus, ReverseProxyConfig,
    PROTOCOL_VERSION, TUNNEL_PROXY, TUNNEL_TCP, TUNNEL_UDP,
};
use crate::text::{append_decimal, append_str, decimal, string_from};
use crate::totp::{base32_decoding, base32_prepared, hotp, saturating_add, saturating_sub, Totp};

verus! {

// ---------------------------------------------------------------------------
// Server side: the answer to a hello
// ---------------------------------------------------------------------------

/// The first check a client hello fails, or that it passes them all.
#[derive(Debug, Clone, Copy, PartialEq, Eq, Structural)]
pub enum HelloCheck {
    Passed,
    WrongVersion,
    BadToken,
    BadTotp,
    HashMismatch,
    NoProxies,
}

/// A token is accepted when it is the server's token or one of the allowed
/// ones; a server with neither a token nor allowed tokens accepts any.
pub open spec fn token_accepted(token: Seq<char>, auth: Option<Seq<char>>, allowed: Seq<Seq<char>>) -> bool {
    match auth {
        Some(t) => token == t || allowed.contains(token),
        None => allowed.len() == 0 || allowed.contains(token),
    }
}

/// The key of a TOTP secret: its Base32 decoding, or else its own bytes.
pub open spec fn totp_key(secret: Seq<char>) -> Seq<u8> {
    match base32_decoding(utf8_encoding(base32_prepared(secret))) {
        Ok(b) => b,
        Err(_) => utf8_encoding(secret),
    }
}

/// A six-digit, thirty-second code is accepted at `now` for the step before,
/// the current step or the step after.
pub open spec fn totp_accepts(key: Seq<u8>, code: u32, now: u64) -> bool {
    ||| code == hotp(key, saturating_sub(now, 30) / 30, 6)
    ||| code == hotp(key, now / 30, 6)
    ||| code == hotp(key, saturating_add(now, 30) / 30, 6)
}

/// The TOTP check passes when the server has no secret, or when a code came
/// and is accepted.
pub open spec fn totp_passes(secret: Option<Seq<char>>, code: Option<u32>, now: u64) -> bool {
    match secret {
        None => true,
        Some(s) => match code {
            Some(c) => totp_accepts(totp_key(s), c, now),
            None => false,
        },
    }
}

/// The checks of a hello, in the order the server makes them.
pub open spec fn hello_check(
    version: u8,
    token: Seq<char>,
    totp_code: Option<u32>,
    n_proxies: nat,
    hash: Seq<char>,
    auth: Option<Seq<char>>,
    allowed: Seq<Seq<char>>,
    secret: Option<Seq<char>>,
    proxies_json: Seq<u8>,
    now: u64,
) -> HelloCheck {
    if version != PROTOCOL_VERSION {
        HelloCheck::WrongVersion
    } else if !token_accepted(token, auth, allowed) {
        HelloCheck::BadToken
    } else if !totp_passes(secret, totp_code, now) {
        HelloCheck::BadTotp
    } else if config_hash(proxies_json) != hash {
        HelloCheck::HashMismatch
    } else if n_proxies == 0 {
        HelloCheck::NoProxies
    } else {
        HelloCheck::Passed
    }
}

pub open spec fn check_status(c: HelloCheck) -> HandshakeStatus {
    match c {
        HelloCheck::Passed => HandshakeStatus::Accepted,
        HelloCheck::WrongVersion => HandshakeStatus::VersionMismatch,
        HelloCheck::BadToken => HandshakeStatus::InvalidToken,
        HelloCheck::BadTotp => HandshakeStatus::InvalidToken,
        HelloCheck::HashMismatch => HandshakeStatus::InvalidConfigHash,
        HelloCheck::NoProxies => HandshakeStatus::ConfigError,
    }
}

pub open spec fn check_message(c: HelloCheck, version: u8, n_proxies: nat) -> Seq<char> {
    match c {
        HelloCheck::Passed => "Connected, "@ + decimal(n_proxies) + " ports allocated"@,
        HelloCheck::WrongVersion => "Unsupported version: "@ + decimal(version as nat),
        HelloCheck::BadToken => "Invalid or missing authentication token"@,
        HelloCheck::BadTotp => "Invalid or missing TOTP code"@,
        HelloCheck::HashMismatch => "Configuration hash mismatch"@,
        HelloCheck::NoProxies => "No proxy configurations provided"@,
    }
}

/// The error the server ends a refused session with.
pub open spec fn check_error(e: ReverseProxyError, c: HelloCheck, version: u8) -> bool {
    match c {
        HelloCheck::WrongVersion => e == ReverseProxyError::UnsupportedVersion(version),
        HelloCheck::BadToken => e matches ReverseProxyError::HandshakeFailed(m) && m@
            == "Authentication failed (Token)"@,
        HelloCheck::BadTotp => e matches ReverseProxyError::HandshakeFailed(m) && m@
            == "Authentication failed (TOTP)"@,
        HelloCheck::HashMismatch => e matches ReverseProxyError::HandshakeFailed(m) && m@
            == "Configuration integrity check failed"@,
        HelloCheck::NoProxies => e matches ReverseProxyError::HandshakeFailed(m) && m@ == "No proxies"@,
        HelloCheck::Passed => false,
    }
}

/// The server ports of a tunnel list.
pub open spec fn server_ports(ps: Seq<ReverseProxyConfig>) -> Seq<u16> {
    ps.map_values(|p: ReverseProxyConfig| p.server_port)
}

/// The TOTP generator of a secret: from Base32, or from the secret's bytes.
fn totp_of_secret(secret: &String) -> (t: Totp)
    ensures
        t.secret_bytes() == totp_key(secret@),
        t.digit_count() == 6,
        t.step() == 30,
{
    match Totp::from_base32(secret.as_str()) {
        Ok(t) => t,
        Err(_) => Totp::new(crate::loader::utf8_bytes(secret.as_str())),
    }
}

/// Whether a token is accepted: the server's token, an allowed one, or any
/// token when the server has neither.
fn token_ok(token: &String, auth_token: &Option<String>, allowed: &Vec<String>) -> (r: bool)
    ensures
        r == token_accepted(token@, opt_view(*auth_token), texts(allowed@)),
{
    match auth_token {
        None => {
            if allowed.len() == 0 {
                return true;
            }
        },
        Some(t) => {
            if *token == *t {
                return true;
            }
        },
    }
    let mut i: usize = 0;
    while i < allowed.len()
        invariant
            i <= allowed@.len(),
            forall|j: int| 0 <= j < i ==> allowed@[j]@ != token@,
        decreases allowed@.len() - i,
    {
        if allowed[i] == *token {
            assert(texts(allowed@)[i as int] == token@);
            return true;
        }
        i = i + 1;
    }
    assert(!texts(allowed@).contains(token@)) by {
        if texts(allowed@).contains(token@) {
            let k = choose|k: int| 0 <= k < texts(allowed@).len() && texts(allowed@)[k] == token@;
            assert(allowed@[k]@ == token@);
        }
    }
    false
}

/// A refusal.
fn refusal(status: HandshakeStatus, message: String) -> (r: ControlMessage)
    ensures
        r matches ControlMessage::ServerHello { version, status: s, message: m, allowed_ports, session_id }
            && version == PROTOCOL_VERSION && s == status && m@ == message@ && allowed_ports@.len() == 0
            && session_id is None,
{
    ControlMessage::ServerHello {
        version: PROTOCOL_VERSION,
        status,
        message,
        allowed_ports: Vec::new(),
        session_id: None,
    }
}

/// What the server answers a client hello and the error it then ends the
/// session with, if it refuses. `proxies_json` is the JSON text of the
/// hello's tunnel list, `now` the Unix time and `client_addr` the client's
/// address as text.
pub fn answer_client_hello(
    hello: &ControlMessage,
    auth_token: &Option<String>,
    allowed_tokens: &Vec<String>,
    totp_secret: &Option<String>,
    proxies_json: &[u8],
    now: u64,
    client_addr: &str,
) -> (r: (Option<ControlMessage>, Option<ReverseProxyError>))
    ensures
        !(*hello is ClientHello) ==> (r.0 is None && (r.1 matches Some(ReverseProxyError::ProtocolError(m))
            && m@ == "Expected ClientHello"@)),
        *hello matches ControlMessage::ClientHello { version, token, totp_code, proxies, config_hash }
            ==> ({
            let c = hello_check(
                version,
                token@,
                totp_code,
                proxies@.len(),
                config_hash@,
                opt_view(*auth_token),
                texts(allowed_tokens@),
                opt_view(*totp_secret),
                proxies_json@,
                now,
            );
            &&& r.0 matches Some(ControlMessage::ServerHello { version: v, status, message, allowed_ports, session_id })
            &&& r.0->Some_0->ServerHello_version == PROTOCOL_VERSION
            &&& r.0->Some_0->ServerHello_status == check_status(c)
            &&& r.0->Some_0->ServerHello_message@ == check_message(c, version, proxies@.len())
            &&& (c == HelloCheck::Passed ==> r.0->Some_0->ServerHello_allowed_ports@ == server_ports(proxies@))
            &&& (c == HelloCheck::Passed ==> (r.0->Some_0->ServerHello_session_id matches Some(s) && s@
                == "session_"@ + decimal(now as nat) + "_"@ + client_addr@))
            &&& (c != HelloCheck::Passed ==> r.0->Some_0->ServerHello_allowed_ports@.len() == 0
                && r.0->Some_0->ServerHello_session_id is None)
            &&& (c == HelloCheck::Passed <==> r.1 is None)
            &&& (c != HelloCheck::Passed ==> check_error(r.1->Some_0, c, version))
        }),
{
    match hello {
        ControlMessage::ClientHello { version, token, totp_code, proxies, config_hash } => {
            if *version != PROTOCOL_VERSION {
                let mut m = string_from("Unsupported version: ");
                append_decimal(&mut m, *version as u64);
                return (
                    Some(refusal(HandshakeStatus::VersionMismatch, m)),
                    Some(ReverseProxyError::UnsupportedVersion(*version)),
                );
            }
            if !token_ok(token, auth_token, allowed_tokens) {
                return (
                    Some(
                        refusal(
                            HandshakeStatus::InvalidToken,
                            string_from("Invalid or missing authentication token"),
                        ),
                    ),
                    Some(ReverseProxyError::HandshakeFailed(string_from("Authentication failed (Token)"))),
                );
            }
            match totp_secret {
                None => {},
                Some(secret) => {
                    let totp = totp_of_secret(secret);
                    let valid = match totp_code {
                        Some(code) => totp.verify_at(*code, now),
                        None => false,
                    };
                    if !valid {
                        return (
                            Some(
                                refusal(
                                    HandshakeStatus::InvalidToken,
                                    string_from("Invalid or missing TOTP code"),
                                ),
                            ),
                            Some(
                                ReverseProxyError::HandshakeFailed(
                                    string_from("Authentication failed (TOTP)"),
                                ),
                            ),
                        );
                    }
                },
            }
            let expected = config_hash_of(proxies_json);
            if !(expected == *config_hash) {
                return (
                    Some(
                        refusal(
                            HandshakeStatus::InvalidConfigHash,
                            string_from("Configuration hash mismatch"),
                        ),
                    ),
                    Some(
                        ReverseProxyError::HandshakeFailed(
                            string_from("Configuration integrity check failed"),
                        ),
                    ),
                );
            }
            if proxies.len() == 0 {
                return (
                    Some(
                        refusal(
                            HandshakeStatus::ConfigError,
                            string_from("No proxy configurations provided"),
                        ),
                    ),
                    Some(ReverseProxyError::HandshakeFailed(string_from("No proxies"))),
                );
            }
            let mut sid = string_from("session_");
            append_decimal(&mut sid, now);
            append_str(&mut sid, "_");
            append_str(&mut sid, client_addr);
            let mut message = string_from("Connected, ");
            append_decimal(&mut message, proxies.len() as u64);
            append_str(&mut message, " ports allocated");
            let ports = collect_server_ports(proxies);
            (
                Some(
                    ControlMessage::ServerHello {
                        version: PROTOCOL_VERSION,
                        status: HandshakeStatus::Accepted,
                        message,
                        allowed_ports: ports,
                        session_id: Some(sid),
                    },
                ),
                None,
            )
        },
        _ => (None, Some(ReverseProxyError::ProtocolError(string_from("Expected ClientHello")))),
    }
}

/// The server ports of a tunnel list.
fn collect_server_ports(ps: &Vec<ReverseProxyConfig>) -> (r: Vec<u16>)
    ensures
        r@ == server_ports(ps@),
{
    let mut r: Vec<u16> = Vec::new();
    let mut i: usize = 0;
    while i < ps.len()
        invariant
            i <= ps@.len(),
            r@ == server_ports(ps@.take(i as int)),
        decreases ps@.len() - i,
    {
        r.push(ps[i].server_port);
        i = i + 1;
        assert(r@ =~= server_ports(ps@.take(i as int)));
    }
    assert(ps@.take(ps@.len() as int) =~= ps@);
    r
}

// ---------------------------------------------------------------------------
// Client side: the hello and the answer
// ---------------------------------------------------------------------------

/// The code a client sends: none without a secret, else the current one.
pub open spec fn client_code(secret: Option<Seq<char>>, now: u64) -> Option<u32> {
    match secret {
        Some(s) => Some(hotp(totp_key(s), now / 30, 6)),
        None => None,
    }
}

/// The hello a client sends for a tunnel list whose JSON text is
/// `proxies_json`, at Unix time `now`: its token (empty without one), its
/// current TOTP code when it has a secret, and the hash of the list.
pub fn build_client_hello(
    auth_token: &Option<String>,
    totp_secret: &Option<String>,
    proxies: Vec<ReverseProxyConfig>,
    proxies_json: &[u8],
    now: u64,
) -> (r: ControlMessage)
    ensures
        r matches ControlMessage::ClientHello { version, token, totp_code, proxies: ps, config_hash: h }
            && version == PROTOCOL_VERSION && token@ == (match opt_view(*auth_token) {
            Some(t) => t,
            None => Seq::<char>::empty(),
        }) && totp_code == client_code(opt_view(*totp_secret), now) && ps@ == proxies@ && h@
            == config_hash(proxies_json@),
{
    let token = match auth_token {
        Some(t) => t.clone(),
        None => String::new(),
    };
    let totp_code = match totp_secret {
        Some(s) => {
            let totp = totp_of_secret(s);
            Some(totp.generate(now))
        },
        None => None,
    };
    let h = config_hash_of(proxies_json);
    ControlMessage::ClientHello { version: PROTOCOL_VERSION, token, totp_code, proxies, config_hash: h }
}

/// What a client makes of the server's answer: an accepted hello succeeds, a
/// refused one fails with the server's message.
pub fn handshake_result(response: ControlMessage) -> (r: Result<(), ReverseProxyError>)
    ensures
        response is ServerHello && response->ServerHello_status == HandshakeStatus::Accepted ==> r is Ok,
        response is ServerHello && response->ServerHello_status != HandshakeStatus::Accepted ==> (r matches Err(
            ReverseProxyError::HandshakeFailed(m),
        ) && m@ == response->ServerHello_message@),
        !(response is ServerHello) ==> (r matches Err(ReverseProxyError::HandshakeFailed(m)) && m@
            == "Invalid server response"@),
{
    match response {
        ControlMessage::ServerHello { status, message, .. } => {
            match status {
                HandshakeStatus::Accepted => Ok(()),
                _ => Err(ReverseProxyError::HandshakeFailed(message)),
            }
        },
        _ => Err(ReverseProxyError::HandshakeFailed(string_from("Invalid server response"))),
    }
}

/// A hello built by a client is accepted by a server that knows its token
/// and shares its TOTP secret and clock, when the hash was taken over the same
/// JSON text and at least one tunnel is asked for.
pub proof fn lemma_client_hello_accepted(
    token: Seq<char>,
    auth: Option<Seq<char>>,
    allowed: Seq<Seq<char>>,
    secret: Option<Seq<char>>,
    proxies_json: Seq<u8>,
    n_proxies: nat,
    now: u64,
)
    requires
        token_accepted(token, auth, allowed),
        n_proxies > 0,
    ensures
        hello_check(
            PROTOCOL_VERSION,
            token,
            client_code(secret, now),
            n_proxies,
            config_hash(proxies_json),
            auth,
            allowed,
            secret,
            proxies_json,
            now,
        ) == HelloCheck::Passed,
{
}

/// A hello whose hash was not taken over the tunnel list's JSON text is
/// refused once its credentials pass.
pub proof fn lemma_tampered_list_refused(
    token: Seq<char>,
    totp_code: Option<u32>,
    n_proxies: nat,
    hash: Seq<char>,
    auth: Option<Seq<char>>,
    allowed: Seq<Seq<char>>,
    secret: Option<Seq<char>>,
    proxies_json: Seq<u8>,
    now: u64,
)
    requires
        token_accepted(token, auth, allowed),
        totp_passes(secret, totp_code, now),
        hash != config_hash(proxies_json),
    ensures
        hello_check(
            PROTOCOL_VERSION,
            token,
            totp_code,
            n_proxies,
            hash,
            auth,
            allowed,
            secret,
            proxies_json,
            now,
        ) == HelloCheck::HashMismatch,
{
}

// ---------------------------------------------------------------------------
// Client side: the tunnel list and reconnection
// ---------------------------------------------------------------------------

/// Whether both ports of a reverse rule are well formed.
pub open spec fn rule_ok(r: ReverseProxySection) -> bool {
    port_outcome(r.server@) is Ok && port_outcome(r.local@) is Ok
}

/// Why a reverse rule cannot become a tunnel.
pub open spec fn rule_error(r: ReverseProxySection) -> Seq<char> {
    match port_outcome(r.server@) {
        Err(reason) => "Invalid server config: "@ + value_error_text("server"@, reason),
        Ok(_) => match port_outcome(r.local@) {
            Err(reason) => "Invalid local config: "@ + value_error_text("local"@, reason),
            Ok(_) => Seq::<char>::empty(),
        },
    }
}

/// The tunnel a well formed reverse rule asks for.
pub open spec fn rule_tunnel(r: ReverseProxySection, t: ReverseProxyConfig) -> bool {
    &&& t.server_port == port_outcome(r.server@)->Ok_0
    &&& opt_view(t.server_host) == (if r.server@.contains(':') {
        Some(before_last_colon(r.server@))
    } else {
        None
    })
    &&& t.local_host@ == (if r.local@.contains(':') {
        before_last_colon(r.local@)
    } else {
        "localhost"@
    })
    &&& t.local_port == port_outcome(r.local@)->Ok_0
}

/// The tunnels a client asks for, one per reverse rule; the first rule with a
/// bad port stops it.
pub fn parse_proxy_configs(config: &ConfigFile) -> (r: Result<Vec<ReverseProxyConfig>, ReverseProxyError>)
    ensures
        (r is Ok) <==> (forall|i: int| 0 <= i < config.reverse_proxies@.len() ==> rule_ok(
            #[trigger] config.reverse_proxies@[i],
        )),
        r matches Ok(v) ==> v@.len() == config.reverse_proxies@.len() && forall|i: int|
            0 <= i < v@.len() ==> rule_tunnel(config.reverse_proxies@[i], #[trigger] v@[i]),
        r matches Err(e) ==> exists|k: int|
            0 <= k < config.reverse_proxies@.len() && (forall|j: int| 0 <= j < k ==> rule_ok(
                #[trigger] config.reverse_proxies@[j],
            )) && !rule_ok(config.reverse_proxies@[k]) && (e matches ReverseProxyError::HandshakeFailed(m)
                && m@ == rule_error(config.reverse_proxies@[k])),
{
    let rs = &config.reverse_proxies;
    let mut out: Vec<ReverseProxyConfig> = Vec::new();
    let mut i: usize = 0;
    while i < rs.len()
        invariant
            rs@ == config.reverse_proxies@,
            i <= rs@.len(),
            out@.len() == i,
            forall|j: int| 0 <= j < i ==> rule_ok(#[trigger] rs@[j]),
            forall|j: int| 0 <= j < i ==> rule_tunnel(rs@[j], #[trigger] out@[j]),
        decreases rs@.len() - i,
    {
        let rp = &rs[i];
        let server_port = match rp.get_server_port() {
            Ok(p) => p,
            Err(e) => {
                let t = e.message();
                let mut m = string_from("Invalid server config: ");
                append_str(&mut m, t.as_str());
                return Err(ReverseProxyError::HandshakeFailed(m));
            },
        };
        let server_host = rp.get_server_ip();
        let local_port = match rp.get_local_port() {
            Ok(p) => p,
            Err(e) => {
                let t = e.message();
                let mut m = string_from("Invalid local config: ");
                append_str(&mut m, t.as_str());
                return Err(ReverseProxyError::HandshakeFailed(m));
            },
        };
        let local_host = match rp.get_local_host() {
            Some(h) => h,
            None => string_from("localhost"),
        };
        out.push(ReverseProxyConfig { server_port, server_host, local_host, local_port });
        i = i + 1;
    }
    Ok(out)
}

/// Connection attempts before a client gives up.
pub const MAX_RETRIES: u64 = 10;

/// Longest wait between two attempts, in seconds.
pub const MAX_BACKOFF: u64 = 60;

/// The wait after `n` failed attempts: doubling from one second, at most a
/// minute.
pub open spec fn backoff_after(n: nat) -> u64
    decreases n,
{
    if n == 0 {
        1
    } else {
        let d = 2 * backoff_after((n - 1) as nat);
        if d < MAX_BACKOFF {
            d as u64
        } else {
            MAX_BACKOFF
        }
    }
}

/// What a client does after an attempt.
#[derive(Debug, Clone, Copy, PartialEq, Eq, Structural)]
pub enum ReconnectAction {
    /// The session ended well; stop.
    Finished,
    /// Wait this many seconds, then try again.
    RetryAfter(u64),
    /// Too many failures; stop with an error.
    GiveUp,
}

/// The reconnection state of a client.
pub struct ReconnectPolicy {
    retry_count: u64,
    backoff_seconds: u64,
}

impl ReconnectPolicy {
    #[verifier::type_invariant]
    spec fn consistent(self) -> bool {
        self.retry_count <= MAX_RETRIES && self.backoff_seconds == backoff_after(self.retry_count as nat)
    }

    /// Failed attempts so far.
    pub closed spec fn failures(self) -> nat {
        self.retry_count as nat
    }

    /// No failure yet; the first wait is one second.
    pub fn new() -> (r: ReconnectPolicy)
        ensures
            r.failures() == 0,
    {
        ReconnectPolicy { retry_count: 0, backoff_seconds: 1 }
    }

    /// Failed attempts so far.
    pub fn retry_count(&self) -> (r: u64)
        ensures
            r == self.failures(),
    {
        self.retry_count
    }

    /// What to do after an attempt: stop on success; after a failure, wait
    /// (one second, then twice as long each time, at most a minute) unless
    /// this was the tenth failure.
    pub fn after_attempt(&mut self, succeeded: bool) -> (r: ReconnectAction)
        ensures
            succeeded ==> r == ReconnectAction::Finished && final(self).failures() == old(self).failures(),
            !succeeded && old(self).failures() + 1 < MAX_RETRIES ==> r == ReconnectAction::RetryAfter(
                backoff_after(old(self).failures()),
            ) && final(self).failures() == old(self).failures() + 1,
            !succeeded && old(self).failures() + 1 >= MAX_RETRIES ==> r == ReconnectAction::GiveUp
                && final(self).failures() == MAX_RETRIES,
    {
        proof {
            use_type_invariant(&*self);
        }
        if succeeded {
            return ReconnectAction::Finished;
        }
        if self.retry_count + 1 >= MAX_RETRIES {
            let b = next_backoff_to(MAX_RETRIES);
            *self = ReconnectPolicy { retry_count: MAX_RETRIES, backoff_seconds: b };
            return ReconnectAction::GiveUp;
        }
        let delay = self.backoff_seconds;
        let doubled = delay * 2;
        let next = if doubled < MAX_BACKOFF {
            doubled
        } else {
            MAX_BACKOFF
        };
        *self = ReconnectPolicy { retry_count: self.retry_count + 1, backoff_seconds: next };
        ReconnectAction::RetryAfter(delay)
    }

    /// The error a client gives up with.
    pub fn give_up_error(&self) -> (e: ReverseProxyError)
        ensures
            e matches ReverseProxyError::ConnectionFailed(m) && m@ == "Failed after "@ + decimal(
                MAX_RETRIES as nat,
            ) + " retry attempts"@,
    {
        let mut m = string_from("Failed after ");
        append_decimal(&mut m, MAX_RETRIES);
        append_str(&mut m, " retry attempts");
        ReverseProxyError::ConnectionFailed(m)
    }
}

/// The wait after `n` failures, computed.
fn next_backoff_to(n: u64) -> (r: u64)
    requires
        n <= MAX_RETRIES,
    ensures
        r == backoff_after(n as nat),
{
    let mut b: u64 = 1;
    let mut i: u64 = 0;
    while i < n
        invariant
            i <= n <= MAX_RETRIES,
            b == backoff_after(i as nat),
            1 <= b <= MAX_BACKOFF,
        decreases n - i,
    {
        b = if b * 2 < MAX_BACKOFF {
            b * 2
        } else {
            MAX_BACKOFF
        };
        i = i + 1;
    }
    b
}

/// The wait never exceeds a minute and never shrinks.
pub proof fn lemma_backoff_bounded(n: nat)
    ensures
        1 <= backoff_after(n) <= MAX_BACKOFF,
        backoff_after(n) <= backoff_after(n + 1),
    decreases n,
{
    if n > 0 {
        lemma_backoff_bounded((n - 1) as nat);
    }
}

// ---------------------------------------------------------------------------
// Client side: routing tunnel streams
// ---------------------------------------------------------------------------

/// Where a tunnel stream goes.
#[derive(Debug)]
pub enum TunnelRoute {
    /// Connect to this local TCP service and copy both ways.
    Tcp { local_host: String, local_port: u16 },
    /// Send the datagram to this local UDP service.
    Udp { local_host: String, local_port: u16 },
}

/// The first tunnel for a server port, or -1.
pub open spec fn first_tunnel_for(ps: Seq<ReverseProxyConfig>, port: u16) -> int
    decreases ps.len(),
{
    if ps.len() == 0 {
        -1
    } else if ps[0].server_port == port {
        0
    } else if first_tunnel_for(ps.drop_first(), port) < 0 {
        -1
    } else {
        first_tunnel_for(ps.drop_first(), port) + 1
    }
}

proof fn lemma_first_tunnel_for(ps: Seq<ReverseProxyConfig>, port: u16)
    ensures
        -1 <= first_tunnel_for(ps, port) < ps.len(),
        first_tunnel_for(ps, port) >= 0 ==> ps[first_tunnel_for(ps, port)].server_port == port,
        forall|j: int|
            0 <= j < ps.len() && (first_tunnel_for(ps, port) < 0 || j < first_tunnel_for(ps, port))
                ==> (#[trigger] ps[j]).server_port != port,
    decreases ps.len(),
{
    if ps.len() > 0 && ps[0].server_port != port {
        lemma_first_tunnel_for(ps.drop_first(), port);
        assert forall|j: int|
            0 <= j < ps.len() && (first_tunnel_for(ps, port) < 0 || j < first_tunnel_for(ps, port))
                implies (#[trigger] ps[j]).server_port != port by {
            if j > 0 {
                assert(ps[j] == ps.drop_first()[j - 1]);
            }
        }
    }
}

/// The position of the first tunnel for a server port.
fn find_tunnel(ps: &Vec<ReverseProxyConfig>, port: u16) -> (r: Option<usize>)
    ensures
        match r {
            Some(k) => k == first_tunnel_for(ps@, port) && k < ps@.len(),
            None => first_tunnel_for(ps@, port) < 0,
        },
{
    proof {
        lemma_first_tunnel_for(ps@, port);
    }
    let mut i: usize = 0;
    while i < ps.len()
        invariant
            i <= ps@.len(),
            forall|j: int| 0 <= j < i ==> (#[trigger] ps@[j]).server_port != port,
        decreases ps@.len() - i,
    {
        if ps[i].server_port == port {
            proof {
                lemma_first_tunnel_for(ps@, port);
            }
            return Some(i);
        }
        i = i + 1;
    }
    proof {
        lemma_first_tunnel_for(ps@, port);
        let f = first_tunnel_for(ps@, port);
        if f >= 0 {
            assert(ps@[f].server_port == port);
        }
    }
    None
}

/// Two lowercase hexadecimal digits of a byte.
pub open spec fn hex2(b: u8) -> Seq<char> {
    seq![crate::protocol::hex_digit(b / 16), crate::protocol::hex_digit(b % 16)]
}

/// Where a tunnel stream opened by the server goes, from its four-byte header:
/// TCP and UDP streams go to the local service of the first tunnel with the
/// header's port.
pub fn route_tunnel(header: &[u8], ps: &Vec<ReverseProxyConfig>) -> (r: Result<TunnelRoute, ReverseProxyError>)
    requires
        header@.len() == 4,
    ensures
        ({
            let kind = header@[0];
            let port = header_port(header@);
            let k = first_tunnel_for(ps@, port);
            &&& (kind == TUNNEL_TCP && k >= 0) ==> (r matches Ok(TunnelRoute::Tcp { local_host, local_port })
                && local_host@ == ps@[k].local_host@ && local_port == ps@[k].local_port)
            &&& (kind == TUNNEL_UDP && k >= 0) ==> (r matches Ok(TunnelRoute::Udp { local_host, local_port })
                && local_host@ == ps@[k].local_host@ && local_port == ps@[k].local_port)
            &&& ((kind == TUNNEL_TCP || kind == TUNNEL_UDP) && k < 0) ==> (r matches Err(
                ReverseProxyError::ConnectionFailed(m),
            ) && m@ == "No local target for port "@ + decimal(port as nat))
            &&& kind == TUNNEL_PROXY ==> (r matches Err(ReverseProxyError::ConnectionFailed(m)) && m@
                == "PROXY protocol not implemented"@)
            &&& (kind != TUNNEL_TCP && kind != TUNNEL_UDP && kind != TUNNEL_PROXY) ==> (r matches Err(
                ReverseProxyError::ConnectionFailed(m),
            ) && m@ == "Unknown protocol type 0x"@ + hex2(kind))
        }),
{
    let (kind, port) = crate::protocol::parse_tunnel_header(header);
    if kind == TUNNEL_PROXY {
        return Err(ReverseProxyError::ConnectionFailed(string_from("PROXY protocol not implemented")));
    }
    if kind != TUNNEL_TCP && kind != TUNNEL_UDP {
        let mut m = string_from("Unknown protocol type 0x");
        let mut one: Vec<u8> = Vec::new();
        one.push(kind);
        let h = crate::protocol::hex_string(one.as_slice());
        assert(one@.drop_last() =~= Seq::<u8>::empty());
        assert(crate::protocol::hex_lower(one@) =~= hex2(kind)) by {
            reveal_with_fuel(crate::protocol::hex_lower, 2);
        }
        append_str(&mut m, h.as_str());
        return Err(ReverseProxyError::ConnectionFailed(m));
    }
    match find_tunnel(ps, port) {
        None => {
            let mut m = string_from("No local target for port ");
            append_decimal(&mut m, port as u64);
            Err(ReverseProxyError::ConnectionFailed(m))
        },
        Some(k) => {
            let host = ps[k].local_host.clone();
            let lp = ps[k].local_port;
            if kind == TUNNEL_TCP {
                Ok(TunnelRoute::Tcp { local_host: host, local_port: lp })
            } else {
                Ok(TunnelRoute::Udp { local_host: host, local_port: lp })
            }
        },
    }
}

/// The local service of a pooled stream, from the two-byte port in front of
/// it.
pub fn route_pool_stream(port_bytes: &[u8], ps: &Vec<ReverseProxyConfig>) -> (r: Result<(String, u16), ReverseProxyError>)
    requires
        port_bytes@.len() == 2,
    ensures
        ({
            let port = ((port_bytes@[0] as u16) << 8u16) | (port_bytes@[1] as u16);
            let k = first_tunnel_for(ps@, port);
            &&& k >= 0 ==> (r matches Ok((h, p)) && h@ == ps@[k].local_host@ && p == ps@[k].local_port)
            &&& k < 0 ==> (r matches Err(ReverseProxyError::ConnectionFailed(m)) && m@ == "Unknown server port: "@
                + decimal(port as nat))
        }),
{
    let port = ((port_bytes[0] as u16) << 8u16) | (port_bytes[1] as u16);
    match find_tunnel(ps, port) {
        None => {
            let mut m = string_from("Unknown server port: ");
            append_decimal(&mut m, port as u64);
            Err(ReverseProxyError::ConnectionFailed(m))
        },
        Some(k) => Ok((ps[k].local_host.clone(), ps[k].local_port)),
    }
}

} // verus!
