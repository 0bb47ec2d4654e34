//! Properties of the configuration check that span several rules or calls.

use vstd::prelude::*;
use crate::config::{
    after_last_colon, before_last_colon, bind_ip_notes, checked_bind_ip, checked_config, cleaned_proxy,
    indexed, join, opt_view, port_outcome, proxies_tally, proxy_local_outcome, proxy_step,
    reverse_step, reverse_tally, source_ip_notes, validation_errors, validation_warnings, ConfigFile,
    ProxySection, ReverseProxySection, Tally,
};
use crate::ip::{is_ip_address, is_ipv4, split};
use crate::text::{
    all_digits, contains, decimal, digit_char, digit_value, digits_value, eq_ignore_ascii_case, is_digit, is_ws,
    lemma_last_index_of, lemma_trim_start_is_suffix, last_index_of, occurs_at, parse_u16, trim, trim_end,
    trim_start,
};

verus! {

/// The text of the error for a forwarding rule that listens on a port taken
/// by an earlier rule.
pub open spec fn duplicate_local_port_text(p: u16, j: int) -> Seq<char> {
    "Duplicate local port "@ + decimal(p as nat) + " detected in "@ + indexed("proxies"@, j)
}

/// Every part of a list shows up in the list joined with a separator.
pub proof fn lemma_join_contains(parts: Seq<Seq<char>>, sep: Seq<char>, k: int)
    requires
        0 <= k < parts.len(),
    ensures
        contains(join(parts, sep), parts[k]),
    decreases parts.len(),
{
    let whole = join(parts, sep);
    if parts.len() == 1 {
        assert(whole.subrange(0, parts[0].len() as int) =~= parts[0]);
        assert(occurs_at(whole, parts[0], 0));
    } else {
        let front = join(parts.drop_last(), sep);
        assert(whole == front + sep + parts.last());
        if k == parts.len() - 1 {
            let at: int = (front.len() + sep.len()) as int;
            assert(whole.subrange(at, at + parts[k].len()) =~= parts[k]);
            assert(occurs_at(whole, parts[k], at));
        } else {
            lemma_join_contains(parts.drop_last(), sep, k);
            assert(parts.drop_last()[k] == parts[k]);
            let at = choose|i: int| occurs_at(front, parts[k], i);
            assert(whole.subrange(at, at + parts[k].len()) =~= front.subrange(at, at + parts[k].len()));
            assert(occurs_at(whole, parts[k], at));
        }
    }
}

/// Checking one more rule only adds errors after the earlier ones, and
/// forgets no port.
proof fn lemma_proxy_step_grows(st: Tally, i: int, p: crate::config::ProxySection)
    ensures
        st.0.len() <= proxy_step(st, i, p).0.len(),
        forall|k: int| 0 <= k < st.0.len() ==> proxy_step(st, i, p).0[k] == st.0[k],
        forall|x: u16| st.2.contains(x) ==> proxy_step(st, i, p).2.contains(x),
{
}

/// The checks of the first `n` rules are a beginning of the checks of the
/// first `m`.
proof fn lemma_tally_grows(ps: Seq<crate::config::ProxySection>, n: int, m: int)
    requires
        0 <= n <= m,
    ensures
        proxies_tally(ps, n).0.len() <= proxies_tally(ps, m).0.len(),
        forall|k: int| 0 <= k < proxies_tally(ps, n).0.len() ==> proxies_tally(ps, m).0[k] == proxies_tally(
            ps,
            n,
        ).0[k],
        forall|x: u16| proxies_tally(ps, n).2.contains(x) ==> proxies_tally(ps, m).2.contains(x),
    decreases m - n,
{
    if n < m {
        lemma_tally_grows(ps, n, m - 1);
        lemma_proxy_step_grows(proxies_tally(ps, m - 1), m - 1, ps[m - 1]);
    }
}

/// When two forwarding rules with well-formed ports listen on the same local
/// port, the check reports the later one as a duplicate, with its index, and
/// so fails with that text in its reason.
pub proof fn lemma_duplicate_local_port_reported(c: crate::config::ConfigFile, i: int, j: int, p: u16)
    requires
        0 <= i < j < c.proxies@.len(),
        proxy_local_outcome(c.proxies@[i].local@) == Ok::<u16, Seq<char>>(p),
        port_outcome(c.proxies@[i].remote@) is Ok,
        proxy_local_outcome(c.proxies@[j].local@) == Ok::<u16, Seq<char>>(p),
        port_outcome(c.proxies@[j].remote@) is Ok,
    ensures
        validation_errors(c).contains(duplicate_local_port_text(p, j)),
        contains(join(validation_errors(c), "; "@), duplicate_local_port_text(p, j)),
{
    let ps = c.proxies@;
    let n = ps.len() as int;
    assert(proxies_tally(ps, i + 1).2.contains(p));
    lemma_tally_grows(ps, i + 1, j);
    let st = proxies_tally(ps, j);
    assert(st.2.contains(p));
    let after = proxies_tally(ps, j + 1);
    assert(after == proxy_step(st, j, ps[j]));
    let at = st.0.len() + (if p == 0 { 1int } else { 0int }) + (if port_outcome(ps[j].remote@)->Ok_0 == 0 {
        1int
    } else {
        0int
    });
    assert(after.0[at] == duplicate_local_port_text(p, j));
    lemma_tally_grows(ps, j + 1, n);
    let errs = validation_errors(c);
    let tally = proxies_tally(ps, n);
    assert(tally.0[at] == duplicate_local_port_text(p, j));
    let front = crate::config::inconsistent_reverse_note(c) + crate::config::bind_ip_notes(c.server).0;
    assert(errs[front.len() + at] == duplicate_local_port_text(p, j));
    lemma_join_contains(errs, "; "@, front.len() + at);
}

/// The text of the error for a bind address that is not an IP address.
pub open spec fn bind_ip_error_text(t: Seq<char>) -> Seq<char> {
    "server.bind_ip '"@ + t + "' is not a valid IP address"@
}

/// A bind address that, once trimmed, is neither empty nor an IP address is
/// reported as trimmed, and the check fails with that text in its reason; an
/// empty one draws the warning that the default address is used.
pub proof fn lemma_bind_ip_reported(c: crate::config::ConfigFile)
    requires
        c.server is Some,
        c.server.unwrap().bind_ip is Some,
    ensures
        ({
            let t = trim(c.server.unwrap().bind_ip.unwrap()@);
            &&& t.len() > 0 && !is_ip_address(t) ==> validation_errors(c).contains(bind_ip_error_text(t))
            &&& t.len() > 0 && !is_ip_address(t) ==> contains(
                join(validation_errors(c), "; "@),
                bind_ip_error_text(t),
            )
            &&& t.len() == 0 ==> validation_warnings(c).contains(
                "server.bind_ip is empty, falling back to default 127.0.0.1"@,
            )
        }),
{
    let t = trim(c.server.unwrap().bind_ip.unwrap()@);
    let notes = bind_ip_notes(c.server);
    let front = crate::config::inconsistent_reverse_note(c);
    if t.len() > 0 && !is_ip_address(t) {
        assert(notes.0 == seq![bind_ip_error_text(t)]);
        let errs = validation_errors(c);
        assert(errs[front.len() as int] == bind_ip_error_text(t));
        lemma_join_contains(errs, "; "@, front.len() as int);
    }
    if t.len() == 0 {
        assert(validation_warnings(c)[0] == "server.bind_ip is empty, falling back to default 127.0.0.1"@);
    }
}

proof fn lemma_digit_char_value(d: nat)
    requires
        d < 10,
    ensures
        digit_value(digit_char(d)) == d,
        is_digit(digit_char(d)),
{
    let c = digit_char(d);
    assert(c as u32 == d + 48);
}

/// The decimal notation of a number is a string of digits worth that number.
pub proof fn lemma_decimal_digits(n: nat)
    ensures
        decimal(n).len() > 0,
        all_digits(decimal(n)),
        digits_value(decimal(n)) == n,
    decreases n,
{
    if n < 10 {
        lemma_digit_char_value(n);
        assert(seq![digit_char(n)].drop_last() =~= Seq::<char>::empty());
        assert(digits_value(Seq::<char>::empty()) == 0);
        assert(digits_value(decimal(n)) == digits_value(Seq::<char>::empty()) * 10 + digit_value(digit_char(n)));
    } else {
        lemma_decimal_digits(n / 10);
        lemma_digit_char_value(n % 10);
        let d = decimal(n);
        assert(d.drop_last() =~= decimal(n / 10));
        assert(d.last() == digit_char(n % 10));
        assert(digits_value(d) == digits_value(decimal(n / 10)) * 10 + digit_value(digit_char(n % 10)));
        assert(n == (n / 10) * 10 + n % 10) by (nonlinear_arith);
        assert forall|i: int| 0 <= i < d.len() implies is_digit(#[trigger] d[i]) by {
            if i < d.len() - 1 {
                assert(d[i] == decimal(n / 10)[i]);
            }
        }
    }
}

/// A host and a port written as `HOST:PORT` split back into that host and
/// that port at the last colon, whatever colons the host holds.
pub proof fn lemma_host_port_round_trip(h: Seq<char>, n: u16)
    ensures
        ({
            let s = h + ":"@ + decimal(n as nat);
            &&& s.contains(':')
            &&& port_outcome(s) == Ok::<u16, Seq<char>>(n)
            &&& before_last_colon(s) == h
        }),
{
    reveal_strlit(":");
    let d = decimal(n as nat);
    let s = h + ":"@ + d;
    lemma_decimal_digits(n as nat);
    lemma_last_index_of(s, ':');
    assert(s[h.len() as int] == ':');
    let k = last_index_of(s, ':');
    if k > h.len() {
        assert(s[k] == d[k - h.len() - 1]);
        assert(is_digit(d[k - h.len() - 1]));
    }
    assert(k == h.len());
    assert(after_last_colon(s) =~= d);
    assert(before_last_colon(s) =~= h);
    assert(is_digit(d[0]));
    assert(parse_u16(d) == Some(n));
}

/// The loopback address is an IP address with nothing to trim.
pub proof fn lemma_loopback_is_ip()
    ensures
        trim("127.0.0.1"@) == "127.0.0.1"@,
        is_ip_address("127.0.0.1"@),
{
    reveal_strlit("127.0.0.1");
    let s = seq!['1', '2', '7', '.', '0', '.', '0', '.', '1'];
    assert("127.0.0.1"@ =~= s);
    assert(!is_ws(s[0]) && !is_ws(s.last()));
    assert(trim_start(s) == s);
    assert(trim_end(s) == s);
    let p0 = seq!['1', '2', '7'];
    let p1 = seq!['0'];
    let t5 = seq!['1', '2', '7', '.', '0'];
    let t7 = seq!['1', '2', '7', '.', '0', '.', '0'];
    reveal_with_fuel(last_index_of, 10);
    assert(last_index_of(p0, '.') == -1);
    assert(last_index_of(t5, '.') == 3);
    assert(last_index_of(t7, '.') == 5);
    assert(last_index_of(s, '.') == 7);
    assert(t5.take(3) =~= p0 && t5.skip(4) =~= p1);
    assert(t7.take(5) =~= t5 && t7.skip(6) =~= p1);
    assert(s.take(7) =~= t7 && s.skip(8) =~= seq!['1']);
    assert(split(p0, '.') == seq![p0]);
    assert(split(t5, '.') == seq![p0, p1]);
    assert(split(t7, '.') == seq![p0, p1, p1]);
    assert(split(s, '.') == seq![p0, p1, p1, seq!['1']]);
    reveal_with_fuel(digits_value, 4);
    assert(p0.drop_last() =~= seq!['1', '2']);
    assert(seq!['1', '2'].drop_last() =~= seq!['1']);
    assert(seq!['1'].drop_last() =~= Seq::<char>::empty());
    assert(p1.drop_last() =~= Seq::<char>::empty());
    assert(digits_value(p0) == 127);
    assert(digits_value(p1) == 0);
    assert(digits_value(seq!['1']) == 1);
    assert(is_ipv4(s));
}

proof fn lemma_trim_end_is_prefix(s: Seq<char>)
    ensures
        trim_end(s).len() <= s.len(),
        trim_end(s) == s.take(trim_end(s).len() as int),
        trim_end(s).len() > 0 ==> !is_ws(trim_end(s).last()),
    decreases s.len(),
{
    if s.len() > 0 && is_ws(s.last()) {
        lemma_trim_end_is_prefix(s.drop_last());
        assert(s.drop_last().take(trim_end(s).len() as int) =~= s.take(trim_end(s).len() as int));
    } else {
        assert(s.take(s.len() as int) =~= s);
    }
}

/// Trimming a trimmed text changes nothing.
pub proof fn lemma_trim_idempotent(x: Seq<char>)
    ensures
        trim(trim(x)) == trim(x),
{
    let u = trim_start(x);
    let t = trim_end(u);
    lemma_trim_start_is_suffix(x);
    lemma_trim_end_is_prefix(u);
    if t.len() > 0 {
        assert(t[0] == u[0]);
        assert(trim_start(t) == t);
        assert(trim_end(t) == t);
    } else {
        assert(trim_start(t) == t);
        assert(trim_end(t) == t);
    }
}

/// Checking a checked bind address changes nothing.
proof fn lemma_checked_bind_ip_idempotent(b: Option<Seq<char>>)
    ensures
        checked_bind_ip(checked_bind_ip(b)) == checked_bind_ip(b),
{
    if let Some(x) = b {
        lemma_trim_idempotent(x);
        lemma_loopback_is_ip();
    }
}

/// Cleaning a cleaned forwarding rule changes nothing.
proof fn lemma_cleaned_proxy_idempotent(p: ProxySection)
    ensures
        cleaned_proxy(cleaned_proxy(p)) == cleaned_proxy(p),
{
}

/// Dropping ignored source addresses changes no error of the rules' check,
/// and no port it records.
proof fn lemma_tally_of_cleaned(ps: Seq<ProxySection>, n: int)
    requires
        0 <= n <= ps.len(),
    ensures
        proxies_tally(ps.map_values(|p: ProxySection| cleaned_proxy(p)), n).0 == proxies_tally(ps, n).0,
        proxies_tally(ps.map_values(|p: ProxySection| cleaned_proxy(p)), n).2 == proxies_tally(ps, n).2,
    decreases n,
{
    let qs = ps.map_values(|p: ProxySection| cleaned_proxy(p));
    if n > 0 {
        lemma_tally_of_cleaned(ps, n - 1);
        let p = ps[n - 1];
        assert(qs[n - 1] == cleaned_proxy(p));
        let st = proxies_tally(ps, n - 1);
        let pre = indexed("proxies"@, n - 1);
        assert(source_ip_notes(pre, opt_view(cleaned_proxy(p).source_ip)).0 == source_ip_notes(
            pre,
            opt_view(p.source_ip),
        ).0);
        assert(proxy_step(st, n - 1, cleaned_proxy(p)).0 == proxy_step(st, n - 1, p).0);
    }
}

/// A configuration that passes the check still passes it once the check has
/// cleaned it, and checking it again changes nothing more.
pub proof fn lemma_validate_idempotent(c0: ConfigFile, c1: ConfigFile, c2: ConfigFile)
    requires
        validation_errors(c0).len() == 0,
        checked_config(c0, c1),
        checked_config(c1, c2),
    ensures
        validation_errors(c1).len() == 0,
        c2.proxies@ == c1.proxies@,
        c2.server is Some == c1.server is Some,
        c1.server is Some ==> c2.server.unwrap().debug == c1.server.unwrap().debug,
        c1.server is Some ==> opt_view(c2.server.unwrap().bind_ip) == opt_view(c1.server.unwrap().bind_ip),
        c2.token == c1.token,
        c2.totp_secret == c1.totp_secret,
        c2.reverse_proxies == c1.reverse_proxies,
        c2.reverse_proxy_server == c1.reverse_proxy_server,
        c2.reverse_proxy_client == c1.reverse_proxy_client,
{
    let n = c0.proxies@.len() as int;
    lemma_tally_of_cleaned(c0.proxies@, n);
    assert(c1.proxies@.len() == n);
    if c0.server is Some {
        let b0 = opt_view(c0.server.unwrap().bind_ip);
        lemma_checked_bind_ip_idempotent(b0);
        lemma_loopback_is_ip();
        if let Some(x) = b0 {
            lemma_trim_idempotent(x);
        }
        assert(bind_ip_notes(c1.server).0.len() == 0);
    }
    assert(validation_errors(c1) =~= validation_errors(c0));
    assert forall|i: int| 0 <= i < c1.proxies@.len() implies c2.proxies@[i] == c1.proxies@[i] by {
        lemma_cleaned_proxy_idempotent(c0.proxies@[i]);
    }
    assert(c2.proxies@ =~= c1.proxies@);
}

/// `reverse_proxies[i]`, as the check names a reverse tunnel rule.
pub open spec fn reverse_rule_name(i: int) -> Seq<char> {
    "reverse_proxies["@ + decimal(i as nat) + "]"@
}

/// Checking one more reverse rule only adds errors and warnings after the
/// earlier ones.
proof fn lemma_reverse_step_grows(st: Tally, i: int, r: ReverseProxySection)
    ensures
        st.0.len() <= reverse_step(st, i, r).0.len(),
        forall|k: int| 0 <= k < st.0.len() ==> reverse_step(st, i, r).0[k] == st.0[k],
        st.1.len() <= reverse_step(st, i, r).1.len(),
        forall|k: int| 0 <= k < st.1.len() ==> reverse_step(st, i, r).1[k] == st.1[k],
{
}

/// The checks of the first `n` reverse rules are a beginning of the checks of
/// the first `m`.
proof fn lemma_reverse_tally_grows(rs: Seq<ReverseProxySection>, n: int, m: int)
    requires
        0 <= n <= m,
    ensures
        reverse_tally(rs, n).0.len() <= reverse_tally(rs, m).0.len(),
        forall|k: int| 0 <= k < reverse_tally(rs, n).0.len() ==> reverse_tally(rs, m).0[k] == reverse_tally(
            rs,
            n,
        ).0[k],
        reverse_tally(rs, n).1.len() <= reverse_tally(rs, m).1.len(),
        forall|k: int| 0 <= k < reverse_tally(rs, n).1.len() ==> reverse_tally(rs, m).1[k] == reverse_tally(
            rs,
            n,
        ).1[k],
    decreases m - n,
{
    if n < m {
        lemma_reverse_tally_grows(rs, n, m - 1);
        lemma_reverse_step_grows(reverse_tally(rs, m - 1), m - 1, rs[m - 1]);
    }
}

/// The source address of a reverse tunnel rule with well-formed ports is
/// checked as that of a forwarding rule is: once trimmed, one that is not an
/// IP address (and neither empty nor "null" in any letter case) is reported
/// with the rule's index, and the check fails with that text in its reason;
/// an empty one or a "null" draws a warning that it is ignored.
pub proof fn lemma_reverse_source_ip_reported(c: ConfigFile, i: int)
    requires
        0 <= i < c.reverse_proxies@.len(),
        port_outcome(c.reverse_proxies@[i].server@) is Ok,
        port_outcome(c.reverse_proxies@[i].local@) is Ok,
        c.reverse_proxies@[i].source_ip is Some,
    ensures
        ({
            let t = trim(c.reverse_proxies@[i].source_ip.unwrap()@);
            let bad = reverse_rule_name(i) + ".source_ip '"@ + t + "' is not a valid IP address"@;
            &&& t.len() > 0 && !eq_ignore_ascii_case(t, "null"@) && !is_ip_address(t)
                ==> validation_errors(c).contains(bad) && contains(join(validation_errors(c), "; "@), bad)
            &&& t.len() == 0 ==> validation_warnings(c).contains(
                reverse_rule_name(i) + ".source_ip is empty and will be ignored"@,
            )
            &&& t.len() > 0 && eq_ignore_ascii_case(t, "null"@) ==> validation_warnings(c).contains(
                reverse_rule_name(i) + ".source_ip contains 'null' value; will be ignored"@,
            )
        }),
{
    let rs = c.reverse_proxies@;
    let n = rs.len() as int;
    let r = rs[i];
    let t = trim(r.source_ip.unwrap()@);
    assert(indexed("reverse_proxies"@, i) == reverse_rule_name(i)) by {
        reveal_strlit("reverse_proxies[");
        reveal_strlit("reverse_proxies");
        reveal_strlit("[");
        assert("reverse_proxies"@ + "["@ =~= "reverse_proxies["@);
    }
    let st = reverse_tally(rs, i);
    let after = reverse_tally(rs, i + 1);
    assert(after == reverse_step(st, i, r));
    lemma_reverse_tally_grows(rs, i + 1, n);
    let tally = reverse_tally(rs, n);
    let errs = validation_errors(c);
    let warns = validation_warnings(c);
    let front_e = crate::config::inconsistent_reverse_note(c) + bind_ip_notes(c.server).0 + proxies_tally(
        c.proxies@,
        c.proxies@.len() as int,
    ).0;
    let front_w = bind_ip_notes(c.server).1 + proxies_tally(c.proxies@, c.proxies@.len() as int).1;
    assert(errs == front_e + tally.0);
    assert(warns == front_w + tally.1);
    let bad = reverse_rule_name(i) + ".source_ip '"@ + t + "' is not a valid IP address"@;
    if t.len() > 0 && !eq_ignore_ascii_case(t, "null"@) && !is_ip_address(t) {
        let at = after.0.len() - 1;
        assert(after.0[at] == bad);
        assert(tally.0[at] == bad);
        assert(errs[front_e.len() + at] == bad);
        lemma_join_contains(errs, "; "@, front_e.len() + at);
    }
    if t.len() == 0 {
        let at = after.1.len() - 1;
        assert(after.1[at] == reverse_rule_name(i) + ".source_ip is empty and will be ignored"@);
        assert(warns[front_w.len() + at] == tally.1[at]);
    }
    if t.len() > 0 && eq_ignore_ascii_case(t, "null"@) {
        let at = after.1.len() - 1;
        assert(after.1[at] == reverse_rule_name(i) + ".source_ip contains 'null' value; will be ignored"@);
        assert(warns[front_w.len() + at] == tally.1[at]);
    }
}

} // verus!
