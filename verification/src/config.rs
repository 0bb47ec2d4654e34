//! The configuration file: its sections, the addresses written in them, and
//! the checks a loaded configuration goes through.

use vstd::prelude::*;
use std::collections::HashSet;
use crate::error::{AppError, ConfigError};
use crate::ip::{is_ip_address, is_ip_address_exec};
use crate::text::{
    append_decimal, append_str, chars_of, count_char, count_char_exec, decimal, eq_ignore_ascii_case,
    eq_ignore_case, last_index_exec, last_index_of, lemma_count_char_pos, lemma_last_index_of,
    parse_u16, parse_u16_exec, string_from, string_of, string_of_range, sub_chars, trim, trim_chars,
};

verus! {

broadcast use vstd::std_specs::hash::group_hash_axioms;

/// The whole configuration file.
#[derive(Debug, Clone)]
pub struct ConfigFile {
    pub server: Option<ServerSection>,
    pub proxies: Vec<ProxySection>,
    pub token: Option<String>,
    pub totp_secret: Option<String>,
    pub reverse_proxies: Vec<ReverseProxySection>,
    /// Reverse tunnel server settings, when this side accepts tunnels.
    pub reverse_proxy_server: Option<ReverseProxyServerSection>,
    /// Reverse tunnel client settings, when this side opens tunnels.
    pub reverse_proxy_client: Option<ReverseProxyClientSection>,
}

/// The `[server]` section.
#[derive(Debug, Clone)]
pub struct ServerSection {
    pub bind_ip: Option<String>,
    pub debug: Option<bool>,
}

/// How a server authenticates its clients.
#[derive(Debug, Clone, Copy, PartialEq, Eq, Structural)]
pub enum AuthMode {
    /// No authentication required.
    Disabled,
    /// One token.
    Single,
    /// Any of several tokens.
    Multiple,
}

/// One forwarding rule.
#[derive(Debug, Clone)]
pub struct ProxySection {
    /// `"8080"` or `"127.0.0.1:8080"`.
    pub local: String,
    /// `"80"`, `"example.com:80"` or `"192.168.1.100:80"`.
    pub remote: String,
    pub source_ip: Option<String>,
    pub allow_ips: Option<Vec<String>>,
    pub max_conns_per_ip: Option<usize>,
    /// Connections accepted per second from one address: the whole part of
    /// the configured rate, which is what the limit is compared with.
    pub cps_limit: Option<usize>,
}

/// One reverse tunnel rule.
#[derive(Debug, Clone)]
pub struct ReverseProxySection {
    /// Server side: `"7000"` or `"0.0.0.0:7000"`.
    pub server: String,
    /// Client side: `"8080"` or `"127.0.0.1:8080"`.
    pub local: String,
    pub source_ip: Option<String>,
}

/// Settings of the side that accepts reverse tunnels.
#[derive(Debug, Clone)]
pub struct ReverseProxyServerSection {
    /// Port the tunnel server listens on.
    pub port: u16,
    /// Tokens that clients may authenticate with.
    pub allowed_tokens: Vec<String>,
    /// Base32 or hexadecimal TOTP secret.
    pub totp_secret: Option<String>,
}

/// Settings of the side that opens reverse tunnels.
#[derive(Debug, Clone)]
pub struct ReverseProxyClientSection {
    /// Server address, such as `"server.example.com:9001"`.
    pub server: String,
    pub token: Option<String>,
    pub totp_secret: Option<String>,
}

impl Default for ServerSection {
    fn default() -> (r: Self)
        ensures
            r.bind_ip matches Some(b) && b@ == "127.0.0.1"@,
            r.debug == Some(false),
    {
        ServerSection { bind_ip: Some(string_from("127.0.0.1")), debug: Some(false) }
    }
}

impl Default for ReverseProxyServerSection {
    fn default() -> (r: Self)
        ensures
            r.port == 9001,
            r.allowed_tokens@.len() == 0,
            r.totp_secret is None,
    {
        ReverseProxyServerSection { port: 9001, allowed_tokens: Vec::new(), totp_secret: None }
    }
}

// ---------------------------------------------------------------------------
// Addresses written as "PORT" or "HOST:PORT"
// ---------------------------------------------------------------------------

/// The text after the last colon.
pub open spec fn after_last_colon(s: Seq<char>) -> Seq<char> {
    s.skip(last_index_of(s, ':') + 1)
}

/// The text before the last colon; an IPv6 host keeps its own colons.
pub open spec fn before_last_colon(s: Seq<char>) -> Seq<char> {
    s.take(last_index_of(s, ':'))
}

/// The port of `"HOST:PORT"` (after the last colon) or of `"PORT"`, or the
/// reason it is not one.
pub open spec fn port_outcome(s: Seq<char>) -> Result<u16, Seq<char>> {
    if s.contains(':') {
        match parse_u16(after_last_colon(s)) {
            Some(p) => Ok(p),
            None => Err("Invalid port number in '"@ + s + "'"@),
        }
    } else {
        match parse_u16(s) {
            Some(p) => Ok(p),
            None => Err("Invalid port number '"@ + s + "'"@),
        }
    }
}

/// The local port of a forwarding rule, which allows at most one colon.
pub open spec fn proxy_local_outcome(s: Seq<char>) -> Result<u16, Seq<char>> {
    if s.contains(':') && count_char(s, ':') != 1 {
        Err("Invalid local format '"@ + s + "', expected 'IP:PORT' or 'PORT'"@)
    } else {
        port_outcome(s)
    }
}

/// `e` is the configuration error for a bad value at `path`.
pub open spec fn is_value_error(e: AppError, path: Seq<char>, reason: Seq<char>) -> bool {
    e matches AppError::Config(ConfigError::InvalidConfigValue { path: p, reason: m }) && p@ == path
        && m@ == reason
}

/// `r` is what a port getter returns for the outcome `o` at `path`.
pub open spec fn port_result(r: Result<u16, AppError>, o: Result<u16, Seq<char>>, path: Seq<char>) -> bool {
    match o {
        Ok(p) => r == Ok::<u16, AppError>(p),
        Err(reason) => r is Err && is_value_error(r->Err_0, path, reason),
    }
}

pub open spec fn opt_view(o: Option<String>) -> Option<Seq<char>> {
    match o {
        Some(s) => Some(s@),
        None => None,
    }
}

/// A string holding `head`, then `s`, then `tail`.
fn quoted(head: &str, s: &String, tail: &str) -> (r: String)
    ensures
        r@ == head@ + s@ + tail@,
{
    let mut r = string_from(head);
    append_str(&mut r, s.as_str());
    append_str(&mut r, tail);
    r
}

/// The port written in `s`, or the reason it is not one.
fn port_outcome_exec(s: &String) -> (r: Result<u16, String>)
    ensures
        match port_outcome(s@) {
            Ok(p) => r == Ok::<u16, String>(p),
            Err(reason) => r is Err && r->Err_0@ == reason,
        },
{
    let cs = chars_of(s.as_str());
    proof {
        lemma_last_index_of(s@, ':');
    }
    match last_index_exec(cs.as_slice(), ':') {
        Some(k) => {
            let tail = sub_chars(cs.as_slice(), k + 1, cs.len());
            assert(tail@ == after_last_colon(s@));
            match parse_u16_exec(tail.as_slice()) {
                Some(p) => Ok(p),
                None => Err(quoted("Invalid port number in '", s, "'")),
            }
        },
        None => match parse_u16_exec(cs.as_slice()) {
            Some(p) => Ok(p),
            None => Err(quoted("Invalid port number '", s, "'")),
        },
    }
}

/// The configuration error for a bad value at `path`.
fn value_error(path: &str, reason: String) -> (e: AppError)
    ensures
        is_value_error(e, path@, reason@),
{
    AppError::Config(ConfigError::InvalidConfigValue { path: string_from(path), reason })
}

/// The port getter result at `path` for an outcome.
fn port_result_exec(o: Result<u16, String>, path: &str) -> (r: Result<u16, AppError>)
    ensures
        match o {
            Ok(p) => r == Ok::<u16, AppError>(p),
            Err(reason) => r is Err && is_value_error(r->Err_0, path@, reason@),
        },
{
    match o {
        Ok(p) => Ok(p),
        Err(reason) => Err(value_error(path, reason)),
    }
}

/// The text before the last colon of `s`, which holds one.
fn before_last_colon_exec(s: &String) -> (r: Option<String>)
    ensures
        s@.contains(':') ==> (r matches Some(h) && h@ == before_last_colon(s@)),
        !s@.contains(':') ==> r is None,
{
    let cs = chars_of(s.as_str());
    proof {
        lemma_last_index_of(s@, ':');
    }
    match last_index_exec(cs.as_slice(), ':') {
        Some(k) => Some(string_of_range(cs.as_slice(), 0, k)),
        None => None,
    }
}

impl ProxySection {
    /// The local port: `"PORT"`, or `"IP:PORT"` with a single colon.
    pub fn get_local_port(&self) -> (r: Result<u16, AppError>)
        ensures
            port_result(r, proxy_local_outcome(self.local@), "local"@),
    {
        let cs = chars_of(self.local.as_str());
        let n = count_char_exec(cs.as_slice(), ':');
        proof {
            lemma_count_char_pos(self.local@, ':');
        }
        if n > 1 {
            return Err(
                value_error(
                    "local",
                    quoted("Invalid local format '", &self.local, "', expected 'IP:PORT' or 'PORT'"),
                ),
            );
        }
        port_result_exec(port_outcome_exec(&self.local), "local")
    }

    /// The local IP of `"IP:PORT"`; none for `"PORT"` or a text with more
    /// than one colon.
    pub fn get_local_ip(&self) -> (r: Option<String>)
        ensures
            self.local@.contains(':') && count_char(self.local@, ':') == 1 ==> (r matches Some(h)
                && h@ == before_last_colon(self.local@)),
            !(self.local@.contains(':') && count_char(self.local@, ':') == 1) ==> r is None,
    {
        let cs = chars_of(self.local.as_str());
        let n = count_char_exec(cs.as_slice(), ':');
        proof {
            lemma_count_char_pos(self.local@, ':');
        }
        if n != 1 {
            return None;
        }
        before_last_colon_exec(&self.local)
    }

    /// The remote host: what precedes the last colon, or `"localhost"` when
    /// only a port is written.
    pub fn get_remote_host(&self) -> (r: Result<String, AppError>)
        ensures
            r matches Ok(h) && h@ == (if self.remote@.contains(':') {
                before_last_colon(self.remote@)
            } else {
                "localhost"@
            }),
    {
        match before_last_colon_exec(&self.remote) {
            Some(h) => Ok(h),
            None => Ok(string_from("localhost")),
        }
    }

    /// The remote port: what follows the last colon, or the whole text.
    /// With `get_remote_host` it splits `HOST:PORT` back into its host and
    /// port (`config_properties::lemma_host_port_round_trip`).
    pub fn get_remote_port(&self) -> (r: Result<u16, AppError>)
        ensures
            port_result(r, port_outcome(self.remote@), "remote"@),
    {
        port_result_exec(port_outcome_exec(&self.remote), "remote")
    }
}

impl ReverseProxySection {
    /// The port the tunnel server opens: what follows the last colon, or the
    /// whole text.
    pub fn get_server_port(&self) -> (r: Result<u16, AppError>)
        ensures
            port_result(r, port_outcome(self.server@), "server"@),
    {
        port_result_exec(port_outcome_exec(&self.server), "server")
    }

    /// The address the tunnel server binds, when one is written.
    pub fn get_server_ip(&self) -> (r: Option<String>)
        ensures
            self.server@.contains(':') ==> (r matches Some(h) && h@ == before_last_colon(
                self.server@,
            )),
            !self.server@.contains(':') ==> r is None,
    {
        before_last_colon_exec(&self.server)
    }

    /// The port the client connects to locally.
    pub fn get_local_port(&self) -> (r: Result<u16, AppError>)
        ensures
            port_result(r, port_outcome(self.local@), "local"@),
    {
        port_result_exec(port_outcome_exec(&self.local), "local")
    }

    /// The host the client connects to locally: the text before the last
    /// colon, or none when only a port is written (the client then uses
    /// localhost).
    pub fn get_local_host(&self) -> (r: Option<String>)
        ensures
            self.local@.contains(':') ==> (r matches Some(h) && h@ == before_last_colon(self.local@)),
            !self.local@.contains(':') ==> r is None,
    {
        before_last_colon_exec(&self.local)
    }
}

/// The services a configuration starts.
#[derive(Debug, Clone, Copy, PartialEq, Eq, Structural)]
pub struct ServicePlan {
    /// Forwarding, for the `[[proxies]]` rules.
    pub forward: bool,
    /// The reverse tunnel server, for `[reverse_proxy_server]`.
    pub reverse_server: bool,
    /// The reverse tunnel client, for `[reverse_proxy_client]`.
    pub reverse_client: bool,
}

/// The services to start: forwarding when there are forwarding rules, the
/// tunnel server and client when their sections are present; a
/// configuration that asks for none is an error.
pub fn service_plan(c: &ConfigFile) -> (r: Result<ServicePlan, ConfigError>)
    ensures
        (c.proxies@.len() > 0 || c.reverse_proxy_server is Some || c.reverse_proxy_client is Some) ==> r
            == Ok::<ServicePlan, ConfigError>(
            ServicePlan {
                forward: c.proxies@.len() > 0,
                reverse_server: c.reverse_proxy_server is Some,
                reverse_client: c.reverse_proxy_client is Some,
            },
        ),
        !(c.proxies@.len() > 0 || c.reverse_proxy_server is Some || c.reverse_proxy_client is Some) ==> (r matches Err(
            ConfigError::InvalidConfigValue { path, reason },
        ) && path@ == "config"@ && reason@ == "No services configured"@),
{
    let plan = ServicePlan {
        forward: c.proxies.len() > 0,
        reverse_server: c.reverse_proxy_server.is_some(),
        reverse_client: c.reverse_proxy_client.is_some(),
    };
    if plan.forward || plan.reverse_server || plan.reverse_client {
        Ok(plan)
    } else {
        Err(ConfigError::InvalidConfigValue {
            path: string_from("config"),
            reason: string_from("No services configured"),
        })
    }
}

impl ConfigFile {
    /// The mode the configuration asks for.
    pub open spec fn runtime_mode(&self) -> Seq<char> {
        if self.reverse_proxy_client is Some {
            "reverse_client"@
        } else if self.reverse_proxy_server is Some {
            "reverse_server"@
        } else {
            "forward"@
        }
    }

    /// The mode the configuration asks for: a reverse tunnel client, a
    /// reverse tunnel server, or plain forwarding.
    pub fn get_runtime_mode(&self) -> (r: String)
        ensures
            r@ == self.runtime_mode(),
    {
        if self.reverse_proxy_client.is_some() {
            string_from("reverse_client")
        } else if self.reverse_proxy_server.is_some() {
            string_from("reverse_server")
        } else {
            string_from("forward")
        }
    }
}

// ---------------------------------------------------------------------------
// Validation
// ---------------------------------------------------------------------------

/// The texts of a list of strings.
pub open spec fn texts(v: Seq<String>) -> Seq<Seq<char>> {
    v.map_values(|s: String| s@)
}

/// `name[i]`.
pub open spec fn indexed(name: Seq<char>, i: int) -> Seq<char> {
    name + "["@ + decimal(i as nat) + "]"@
}

/// The text of a bad value error at `path`, as the application error shows it.
pub open spec fn value_error_text(path: Seq<char>, reason: Seq<char>) -> Seq<char> {
    "Configuration error: "@ + ("Invalid configuration value at "@ + path + ": "@ + reason)
}

/// Errors and warnings.
pub type Notes = (Seq<Seq<char>>, Seq<Seq<char>>);

/// Errors, warnings and the ports seen so far.
pub type Tally = (Seq<Seq<char>>, Seq<Seq<char>>, Set<u16>);

/// A source address that is empty or says "null" is ignored.
pub open spec fn source_ip_ignored(sip: Option<Seq<char>>) -> bool {
    match sip {
        Some(s) => trim(s).len() == 0 || eq_ignore_ascii_case(trim(s), "null"@),
        None => false,
    }
}

/// What the check of a source address reports.
pub open spec fn source_ip_notes(prefix: Seq<char>, sip: Option<Seq<char>>) -> Notes {
    match sip {
        Some(s) => {
            let t = trim(s);
            if t.len() == 0 {
                (seq![], seq![prefix + ".source_ip is empty and will be ignored"@])
            } else if eq_ignore_ascii_case(t, "null"@) {
                (seq![], seq![prefix + ".source_ip contains 'null' value; will be ignored"@])
            } else if !is_ip_address(t) {
                (seq![prefix + ".source_ip '"@ + t + "' is not a valid IP address"@], seq![])
            } else {
                (seq![], seq![])
            }
        },
        None => (seq![], seq![]),
    }
}

/// The check of forwarding rule `i`, after those before it.
pub open spec fn proxy_step(st: Tally, i: int, p: ProxySection) -> Tally {
    let pre = indexed("proxies"@, i);
    match proxy_local_outcome(p.local@) {
        Err(reason) => (st.0.push(pre + ".local: "@ + value_error_text("local"@, reason)), st.1, st.2),
        Ok(lp) => {
            let e1 = if lp == 0 {
                st.0.push(pre + ".local port must be between 1 and 65535"@)
            } else {
                st.0
            };
            match port_outcome(p.remote@) {
                Err(reason) => (e1.push(pre + ".remote: "@ + value_error_text("remote"@, reason)), st.1, st.2),
                Ok(rp) => {
                    let e2 = if rp == 0 {
                        e1.push(pre + ".remote port must be between 1 and 65535"@)
                    } else {
                        e1
                    };
                    let e3 = if st.2.contains(lp) {
                        e2.push("Duplicate local port "@ + decimal(lp as nat) + " detected in "@ + pre)
                    } else {
                        e2
                    };
                    let notes = source_ip_notes(pre, opt_view(p.source_ip));
                    (e3 + notes.0, st.1 + notes.1, st.2.insert(lp))
                },
            }
        },
    }
}

/// The check of forwarding rules `0..n`.
pub open spec fn proxies_tally(ps: Seq<ProxySection>, n: int) -> Tally
    decreases n,
{
    if n <= 0 {
        (seq![], seq![], Set::empty())
    } else {
        proxy_step(proxies_tally(ps, n - 1), n - 1, ps[n - 1])
    }
}

/// Whether the check drops the source address of a forwarding rule: the rule
/// has well-formed ports and its source address is empty or "null".
pub open spec fn source_ip_dropped(p: ProxySection) -> bool {
    &&& proxy_local_outcome(p.local@) is Ok
    &&& port_outcome(p.remote@) is Ok
    &&& source_ip_ignored(opt_view(p.source_ip))
}

/// A forwarding rule as the check leaves it.
pub open spec fn cleaned_proxy(p: ProxySection) -> ProxySection {
    ProxySection {
        local: p.local,
        remote: p.remote,
        source_ip: if source_ip_dropped(p) {
            None
        } else {
            p.source_ip
        },
        allow_ips: p.allow_ips,
        max_conns_per_ip: p.max_conns_per_ip,
        cps_limit: p.cps_limit,
    }
}

/// The check of reverse tunnel rule `i`, after those before it.
pub open spec fn reverse_step(st: Tally, i: int, r: ReverseProxySection) -> Tally {
    let pre = indexed("reverse_proxies"@, i);
    match port_outcome(r.server@) {
        Err(reason) => (st.0.push(pre + ".server: "@ + value_error_text("server"@, reason)), st.1, st.2),
        Ok(sp) => {
            let e1 = if sp == 0 {
                st.0.push(pre + ".server port must be between 1 and 65535"@)
            } else {
                st.0
            };
            let e2 = if st.2.contains(sp) {
                e1.push("Duplicate server port "@ + decimal(sp as nat) + " detected in "@ + pre)
            } else {
                e1
            };
            let seen = st.2.insert(sp);
            match port_outcome(r.local@) {
                Err(reason) => (e2.push(pre + ".local: "@ + value_error_text("local"@, reason)), st.1, seen),
                Ok(lp) => {
                    let e3 = if lp == 0 {
                        e2.push(pre + ".local port must be between 1 and 65535"@)
                    } else {
                        e2
                    };
                    let notes = source_ip_notes(pre, opt_view(r.source_ip));
                    (e3 + notes.0, st.1 + notes.1, seen)
                },
            }
        },
    }
}

/// The check of reverse tunnel rules `0..n`.
pub open spec fn reverse_tally(rs: Seq<ReverseProxySection>, n: int) -> Tally
    decreases n,
{
    if n <= 0 {
        (seq![], seq![], Set::empty())
    } else {
        reverse_step(reverse_tally(rs, n - 1), n - 1, rs[n - 1])
    }
}

/// What the check of the server's bind address reports.
pub open spec fn bind_ip_notes(server: Option<ServerSection>) -> Notes {
    match server {
        Some(s) => match opt_view(s.bind_ip) {
            Some(b) => {
                let t = trim(b);
                if t.len() == 0 {
                    (seq![], seq!["server.bind_ip is empty, falling back to default 127.0.0.1"@])
                } else if !is_ip_address(t) {
                    (seq!["server.bind_ip '"@ + t + "' is not a valid IP address"@], seq![])
                } else {
                    (seq![], seq![])
                }
            },
            None => (seq![], seq![]),
        },
        None => (seq![], seq![]),
    }
}

/// The server's bind address after the check: trimmed, or the default when
/// empty; an invalid one stays as written.
pub open spec fn checked_bind_ip(b: Option<Seq<char>>) -> Option<Seq<char>> {
    match b {
        Some(x) => {
            let t = trim(x);
            if t.len() == 0 {
                Some("127.0.0.1"@)
            } else if is_ip_address(t) {
                Some(t)
            } else {
                Some(x)
            }
        },
        None => None,
    }
}

pub open spec fn inconsistent_reverse_note(c: ConfigFile) -> Seq<Seq<char>> {
    if c.reverse_proxies@.len() > 0 && c.reverse_proxy_server is None && c.reverse_proxy_client is None {
        seq![
            "Reverse proxies configured but neither reverse_proxy_server nor reverse_proxy_client specified"@,
        ]
    } else {
        seq![]
    }
}

/// `c1` is `c0` as the check leaves it: empty or "null" source addresses of
/// forwarding rules dropped, the server's bind address checked, the rest as
/// it was.
pub open spec fn checked_config(c0: ConfigFile, c1: ConfigFile) -> bool {
    &&& c1.proxies@ == c0.proxies@.map_values(|p: ProxySection| cleaned_proxy(p))
    &&& c1.server is Some == c0.server is Some
    &&& c0.server is Some ==> c1.server.unwrap().debug == c0.server.unwrap().debug
    &&& c0.server is Some ==> opt_view(c1.server.unwrap().bind_ip) == checked_bind_ip(
        opt_view(c0.server.unwrap().bind_ip),
    )
    &&& c1.token == c0.token
    &&& c1.totp_secret == c0.totp_secret
    &&& c1.reverse_proxies == c0.reverse_proxies
    &&& c1.reverse_proxy_server == c0.reverse_proxy_server
    &&& c1.reverse_proxy_client == c0.reverse_proxy_client
}

/// Every error the check of a configuration finds, in order.
pub open spec fn validation_errors(c: ConfigFile) -> Seq<Seq<char>> {
    inconsistent_reverse_note(c) + bind_ip_notes(c.server).0 + proxies_tally(
        c.proxies@,
        c.proxies@.len() as int,
    ).0 + reverse_tally(c.reverse_proxies@, c.reverse_proxies@.len() as int).0
}

/// Every warning the check of a configuration gives, in order.
pub open spec fn validation_warnings(c: ConfigFile) -> Seq<Seq<char>> {
    bind_ip_notes(c.server).1 + proxies_tally(c.proxies@, c.proxies@.len() as int).1 + reverse_tally(
        c.reverse_proxies@,
        c.reverse_proxies@.len() as int,
    ).1
}

/// The parts with `sep` between each two.
pub open spec fn join(parts: Seq<Seq<char>>, sep: Seq<char>) -> Seq<char>
    decreases parts.len(),
{
    if parts.len() == 0 {
        seq![]
    } else if parts.len() == 1 {
        parts[0]
    } else {
        join(parts.drop_last(), sep) + sep + parts.last()
    }
}

proof fn lemma_texts_push(v: Seq<String>, x: String)
    ensures
        texts(v.push(x)) == texts(v).push(x@),
{
    assert(texts(v.push(x)) =~= texts(v).push(x@));
}

/// Appends a string to a list.
fn push_text(v: &mut Vec<String>, x: String)
    ensures
        texts(final(v)@) == texts(old(v)@).push(x@),
{
    proof {
        lemma_texts_push(v@, x);
    }
    v.push(x);
}

/// `name[i]`.
fn indexed_exec(name: &str, i: usize) -> (r: String)
    ensures
        r@ == indexed(name@, i as int),
{
    let mut r = string_from(name);
    append_str(&mut r, "[");
    append_decimal(&mut r, i as u64);
    append_str(&mut r, "]");
    r
}

/// `a`, then `b`, then `c`.
fn concat3(a: &String, b: &str, c: &String) -> (r: String)
    ensures
        r@ == a@ + b@ + c@,
{
    let mut r = a.clone();
    append_str(&mut r, b);
    append_str(&mut r, c.as_str());
    r
}

/// Adds the notes on a source address; tells whether it is to be dropped.
fn note_source_ip(
    prefix: &String,
    sip: &Option<String>,
    errors: &mut Vec<String>,
    warnings: &mut Vec<String>,
) -> (dropped: bool)
    ensures
        texts(final(errors)@) == texts(old(errors)@) + source_ip_notes(prefix@, opt_view(*sip)).0,
        texts(final(warnings)@) == texts(old(warnings)@) + source_ip_notes(prefix@, opt_view(*sip)).1,
        dropped == source_ip_ignored(opt_view(*sip)),
{
    match sip {
        None => {
            assert(texts(errors@) + seq![] =~= texts(errors@));
            assert(texts(warnings@) + seq![] =~= texts(warnings@));
            false
        },
        Some(s) => {
            let cs = chars_of(s.as_str());
            let t = trim_chars(cs.as_slice());
            let null = chars_of("null");
            if t.len() == 0 {
                let m = concat3(prefix, ".source_ip is empty and will be ignored", &String::new());
                assert(m@ =~= prefix@ + ".source_ip is empty and will be ignored"@);
                push_text(warnings, m);
                assert(texts(errors@) + seq![] =~= texts(errors@));
                assert(texts(warnings@) =~= texts(old(warnings)@) + seq![m@]);
                true
            } else if eq_ignore_case(t.as_slice(), null.as_slice()) {
                let m = concat3(prefix, ".source_ip contains 'null' value; will be ignored", &String::new());
                assert(m@ =~= prefix@ + ".source_ip contains 'null' value; will be ignored"@);
                push_text(warnings, m);
                assert(texts(errors@) + seq![] =~= texts(errors@));
                assert(texts(warnings@) =~= texts(old(warnings)@) + seq![m@]);
                true
            } else if !is_ip_address_exec(t.as_slice()) {
                let ts = string_of(t.as_slice());
                let mut m = concat3(prefix, ".source_ip '", &ts);
                append_str(&mut m, "' is not a valid IP address");
                push_text(errors, m);
                assert(texts(errors@) =~= texts(old(errors)@) + seq![m@]);
                assert(texts(warnings@) + seq![] =~= texts(warnings@));
                false
            } else {
                assert(texts(errors@) + seq![] =~= texts(errors@));
                assert(texts(warnings@) + seq![] =~= texts(warnings@));
                false
            }
        },
    }
}

/// Checks forwarding rule `index`, dropping an ignored source address.
fn check_proxy(
    index: usize,
    p: &mut ProxySection,
    errors: &mut Vec<String>,
    warnings: &mut Vec<String>,
    seen: &mut HashSet<u16>,
)
    ensures
        texts(final(errors)@) == proxy_step(
            (texts(old(errors)@), texts(old(warnings)@), old(seen)@),
            index as int,
            *old(p),
        ).0,
        texts(final(warnings)@) == proxy_step(
            (texts(old(errors)@), texts(old(warnings)@), old(seen)@),
            index as int,
            *old(p),
        ).1,
        final(seen)@ == proxy_step(
            (texts(old(errors)@), texts(old(warnings)@), old(seen)@),
            index as int,
            *old(p),
        ).2,
        *final(p) == cleaned_proxy(*old(p)),
{
    let prefix = indexed_exec("proxies", index);
    let lp = match p.get_local_port() {
        Ok(v) => v,
        Err(e) => {
            let t = e.message();
            push_text(errors, concat3(&prefix, ".local: ", &t));
            return ;
        },
    };
    if lp == 0 {
        push_text(errors, concat3(&prefix, ".local port must be between 1 and 65535", &String::new()));
        assert(texts(errors@).last() =~= prefix@ + ".local port must be between 1 and 65535"@);
    }
    let ghost e1 = texts(errors@);
    let rp = match p.get_remote_port() {
        Ok(v) => v,
        Err(e) => {
            let t = e.message();
            push_text(errors, concat3(&prefix, ".remote: ", &t));
            return ;
        },
    };
    if rp == 0 {
        push_text(errors, concat3(&prefix, ".remote port must be between 1 and 65535", &String::new()));
        assert(texts(errors@).last() =~= prefix@ + ".remote port must be between 1 and 65535"@);
    }
    let fresh = seen.insert(lp);
    if !fresh {
        let mut m = string_from("Duplicate local port ");
        append_decimal(&mut m, lp as u64);
        append_str(&mut m, " detected in ");
        append_str(&mut m, prefix.as_str());
        push_text(errors, m);
    }
    let dropped = note_source_ip(&prefix, &p.source_ip, errors, warnings);
    if dropped {
        p.source_ip = None;
    }
}

/// Checks reverse tunnel rule `index`.
fn check_reverse(
    index: usize,
    r: &ReverseProxySection,
    errors: &mut Vec<String>,
    warnings: &mut Vec<String>,
    seen: &mut HashSet<u16>,
)
    ensures
        texts(final(errors)@) == reverse_step(
            (texts(old(errors)@), texts(old(warnings)@), old(seen)@),
            index as int,
            *r,
        ).0,
        texts(final(warnings)@) == reverse_step(
            (texts(old(errors)@), texts(old(warnings)@), old(seen)@),
            index as int,
            *r,
        ).1,
        final(seen)@ == reverse_step(
            (texts(old(errors)@), texts(old(warnings)@), old(seen)@),
            index as int,
            *r,
        ).2,
{
    let prefix = indexed_exec("reverse_proxies", index);
    let sp = match r.get_server_port() {
        Ok(v) => v,
        Err(e) => {
            let t = e.message();
            push_text(errors, concat3(&prefix, ".server: ", &t));
            return ;
        },
    };
    if sp == 0 {
        push_text(errors, concat3(&prefix, ".server port must be between 1 and 65535", &String::new()));
        assert(texts(errors@).last() =~= prefix@ + ".server port must be between 1 and 65535"@);
    }
    let fresh = seen.insert(sp);
    if !fresh {
        let mut m = string_from("Duplicate server port ");
        append_decimal(&mut m, sp as u64);
        append_str(&mut m, " detected in ");
        append_str(&mut m, prefix.as_str());
        push_text(errors, m);
    }
    let lp = match r.get_local_port() {
        Ok(v) => v,
        Err(e) => {
            let t = e.message();
            push_text(errors, concat3(&prefix, ".local: ", &t));
            return ;
        },
    };
    if lp == 0 {
        push_text(errors, concat3(&prefix, ".local port must be between 1 and 65535", &String::new()));
        assert(texts(errors@).last() =~= prefix@ + ".local port must be between 1 and 65535"@);
    }
    let _ = note_source_ip(&prefix, &r.source_ip, errors, warnings);
}

/// Checking a rule after some earlier notes only adds to them.
proof fn lemma_step_prefix(eb: Seq<Seq<char>>, wb: Seq<Seq<char>>, st: Tally, i: int, p: ProxySection)
    ensures
        proxy_step((eb + st.0, wb + st.1, st.2), i, p).0 == eb + proxy_step(st, i, p).0,
        proxy_step((eb + st.0, wb + st.1, st.2), i, p).1 == wb + proxy_step(st, i, p).1,
        proxy_step((eb + st.0, wb + st.1, st.2), i, p).2 == proxy_step(st, i, p).2,
{
    let a = proxy_step((eb + st.0, wb + st.1, st.2), i, p);
    let b = proxy_step(st, i, p);
    let pre = indexed("proxies"@, i);
    let notes = source_ip_notes(pre, opt_view(p.source_ip));
    match proxy_local_outcome(p.local@) {
        Err(reason) => {
            assert(a.0 =~= eb + b.0);
        },
        Ok(lp) => {
            match port_outcome(p.remote@) {
                Err(reason) => {
                    assert(a.0 =~= eb + b.0);
                },
                Ok(rp) => {
                    assert(a.0 =~= eb + b.0);
                    assert(a.1 =~= wb + b.1);
                },
            }
        },
    }
}

/// Checking a reverse rule after some earlier notes only adds to them.
proof fn lemma_reverse_step_prefix(
    eb: Seq<Seq<char>>,
    wb: Seq<Seq<char>>,
    st: Tally,
    i: int,
    r: ReverseProxySection,
)
    ensures
        reverse_step((eb + st.0, wb + st.1, st.2), i, r).0 == eb + reverse_step(st, i, r).0,
        reverse_step((eb + st.0, wb + st.1, st.2), i, r).1 == wb + reverse_step(st, i, r).1,
        reverse_step((eb + st.0, wb + st.1, st.2), i, r).2 == reverse_step(st, i, r).2,
{
    let a = reverse_step((eb + st.0, wb + st.1, st.2), i, r);
    let b = reverse_step(st, i, r);
    match port_outcome(r.server@) {
        Err(reason) => {
            assert(a.0 =~= eb + b.0);
        },
        Ok(sp) => {
            match port_outcome(r.local@) {
                Err(reason) => {
                    assert(a.0 =~= eb + b.0);
                },
                Ok(lp) => {
                    assert(a.0 =~= eb + b.0);
                    assert(a.1 =~= wb + b.1);
                },
            }
        },
    }
}

/// The parts with `sep` between each two.
fn join_exec(parts: &Vec<String>, sep: &str) -> (r: String)
    ensures
        r@ == join(texts(parts@), sep@),
{
    let ghost t = texts(parts@);
    if parts.len() == 0 {
        return String::new();
    }
    let mut r = parts[0].clone();
    assert(t.take(1) =~= seq![t[0]]);
    let mut i: usize = 1;
    while i < parts.len()
        invariant
            t == texts(parts@),
            1 <= i <= parts@.len(),
            r@ == join(t.take(i as int), sep@),
        decreases parts@.len() - i,
    {
        append_str(&mut r, sep);
        append_str(&mut r, parts[i].as_str());
        assert(t.take(i + 1).drop_last() =~= t.take(i as int));
        i = i + 1;
    }
    assert(t.take(i as int) =~= t);
    r
}

/// Checks the server's bind address: trims it, or puts the default in place
/// of an empty one.
fn check_bind_ip(server: &mut Option<ServerSection>, errors: &mut Vec<String>, warnings: &mut Vec<String>)
    ensures
        texts(final(errors)@) == texts(old(errors)@) + bind_ip_notes(*old(server)).0,
        texts(final(warnings)@) == texts(old(warnings)@) + bind_ip_notes(*old(server)).1,
        *final(server) is Some == *old(server) is Some,
        *old(server) is Some ==> (*final(server)).unwrap().debug == (*old(server)).unwrap().debug,
        *old(server) is Some ==> opt_view((*final(server)).unwrap().bind_ip) == checked_bind_ip(
            opt_view((*old(server)).unwrap().bind_ip),
        ),
{
    assert(texts(errors@) + seq![] =~= texts(errors@));
    assert(texts(warnings@) + seq![] =~= texts(warnings@));
    match server {
        None => {},
        Some(s) => {
            let replacement: Option<String> = match &s.bind_ip {
                None => None,
                Some(current) => {
                    let cs = chars_of(current.as_str());
                    let t = trim_chars(cs.as_slice());
                    if t.len() == 0 {
                        push_text(
                            warnings,
                            string_from("server.bind_ip is empty, falling back to default 127.0.0.1"),
                        );
                        assert(texts(warnings@) =~= texts(old(warnings)@) + seq![
                            "server.bind_ip is empty, falling back to default 127.0.0.1"@,
                        ]);
                        Some(string_from("127.0.0.1"))
                    } else if !is_ip_address_exec(t.as_slice()) {
                        let ts = string_of(t.as_slice());
                        let mut m = string_from("server.bind_ip '");
                        append_str(&mut m, ts.as_str());
                        append_str(&mut m, "' is not a valid IP address");
                        push_text(errors, m);
                        assert(texts(errors@) =~= texts(old(errors)@) + seq![m@]);
                        None
                    } else {
                        Some(string_of(t.as_slice()))
                    }
                },
            };
            match replacement {
                Some(b) => {
                    s.bind_ip = Some(b);
                },
                None => {},
            }
        },
    }
}

impl ConfigFile {
    /// Checks the whole configuration. Every error found is reported at once,
    /// joined by "; " under the path "config"; otherwise the warnings are
    /// returned. Along the way the server's bind address is trimmed (or set to
    /// 127.0.0.1 when empty) and empty or "null" source addresses of
    /// forwarding rules are dropped.
    ///
    /// `config_properties` proves what follows from this: every repeated
    /// local port is reported with its index
    /// (`lemma_duplicate_local_port_reported`), a bad bind address is named in
    /// the reason (`lemma_bind_ip_reported`), and a configuration that passed
    /// passes again unchanged (`lemma_validate_idempotent`).
    pub fn validate(&mut self) -> (r: Result<Vec<String>, ConfigError>)
        ensures
            validation_errors(*old(self)).len() == 0 ==> (r matches Ok(w) && texts(w@)
                == validation_warnings(*old(self))),
            validation_errors(*old(self)).len() > 0 ==> (r matches Err(
                ConfigError::InvalidConfigValue { path, reason },
            ) && path@ == "config"@ && reason@ == join(validation_errors(*old(self)), "; "@)),
            checked_config(*old(self), *final(self)),
    {
        let ghost c0 = *self;
        let mut errors: Vec<String> = Vec::new();
        let mut warnings: Vec<String> = Vec::new();
        if self.reverse_proxies.len() > 0 && self.reverse_proxy_server.is_none()
            && self.reverse_proxy_client.is_none() {
            push_text(
                &mut errors,
                string_from(
                    "Reverse proxies configured but neither reverse_proxy_server nor reverse_proxy_client specified",
                ),
            );
        }
        assert(texts(errors@) =~= inconsistent_reverse_note(c0));
        assert(texts(warnings@) =~= seq![]);
        check_bind_ip(&mut self.server, &mut errors, &mut warnings);
        let ghost e_base = texts(errors@);
        let ghost w_base = texts(warnings@);
        let ghost c1 = *self;
        let ghost before = self.proxies@;
        let mut seen: HashSet<u16> = HashSet::new();
        let n = self.proxies.len();
        let mut i: usize = 0;
        assert(e_base + proxies_tally(before, 0).0 =~= e_base);
        assert(w_base + proxies_tally(before, 0).1 =~= w_base);
        while i < n
            invariant
                n == before.len(),
                before == c0.proxies@,
                self.proxies@.len() == n,
                i <= n,
                forall|j: int| 0 <= j < i ==> self.proxies@[j] == cleaned_proxy(before[j]),
                forall|j: int| i <= j < n ==> self.proxies@[j] == before[j],
                texts(errors@) == e_base + proxies_tally(before, i as int).0,
                texts(warnings@) == w_base + proxies_tally(before, i as int).1,
                seen@ == proxies_tally(before, i as int).2,
                self.server == c1.server,
                self.token == c1.token,
                self.totp_secret == c1.totp_secret,
                self.reverse_proxies == c1.reverse_proxies,
                self.reverse_proxy_server == c1.reverse_proxy_server,
                self.reverse_proxy_client == c1.reverse_proxy_client,
            decreases n - i,
        {
            proof {
                lemma_step_prefix(e_base, w_base, proxies_tally(before, i as int), i as int, before[i as int]);
            }
            check_proxy(i, &mut self.proxies[i], &mut errors, &mut warnings, &mut seen);
            i = i + 1;
        }
        assert(self.proxies@ =~= c0.proxies@.map_values(|p: ProxySection| cleaned_proxy(p)));
        let ghost e_mid = texts(errors@);
        let ghost w_mid = texts(warnings@);
        let mut seen_server: HashSet<u16> = HashSet::new();
        let m = self.reverse_proxies.len();
        let ghost rs = self.reverse_proxies@;
        let mut k: usize = 0;
        assert(e_mid + reverse_tally(rs, 0).0 =~= e_mid);
        assert(w_mid + reverse_tally(rs, 0).1 =~= w_mid);
        while k < m
            invariant
                m == rs.len(),
                rs == self.reverse_proxies@,
                k <= m,
                texts(errors@) == e_mid + reverse_tally(rs, k as int).0,
                texts(warnings@) == w_mid + reverse_tally(rs, k as int).1,
                seen_server@ == reverse_tally(rs, k as int).2,
            decreases m - k,
        {
            proof {
                lemma_reverse_step_prefix(e_mid, w_mid, reverse_tally(rs, k as int), k as int, rs[k as int]);
            }
            check_reverse(k, &self.reverse_proxies[k], &mut errors, &mut warnings, &mut seen_server);
            k = k + 1;
        }
        assert(texts(errors@) =~= validation_errors(c0));
        assert(texts(warnings@) =~= validation_warnings(c0));
        if errors.len() > 0 {
            Err(ConfigError::InvalidConfigValue { path: string_from("config"), reason: join_exec(&errors, "; ") })
        } else {
            Ok(warnings)
        }
    }
}

} // verus!
