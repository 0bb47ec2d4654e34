//! The textual IP address forms accepted in the configuration: dotted-quad
//! IPv4 and RFC 4291 IPv6 (with `::` compression and an embedded IPv4 tail),
//! as the standard library's `IpAddr` parser accepts them.

use vstd::prelude::*;
use crate::text::{all_digits, digits_value, is_digit, last_index_of, lemma_digits_value_take, lemma_last_index_of};

verus! {

// ---------------------------------------------------------------------------
// Specifications
// ---------------------------------------------------------------------------

/// The pieces of `s` between occurrences of `c`, as `str::split` yields them.
pub open spec fn split(s: Seq<char>, c: char) -> Seq<Seq<char>>
    decreases s.len(),
{
    let k = last_index_of(s, c);
    if k < 0 || k >= s.len() {
        seq![s]
    } else {
        split(s.take(k), c).push(s.skip(k + 1))
    }
}

/// The pieces of `s` between colons; none for the empty string.
pub open spec fn colon_pieces(s: Seq<char>) -> Seq<Seq<char>> {
    if s.len() == 0 {
        Seq::empty()
    } else {
        split(s, ':')
    }
}

/// One IPv4 octet: one to three decimal digits, no leading zero, at most 255.
pub open spec fn is_ipv4_octet(s: Seq<char>) -> bool {
    &&& 1 <= s.len() <= 3
    &&& all_digits(s)
    &&& (s.len() == 1 || s[0] != '0')
    &&& digits_value(s) <= 255
}

/// Dotted-quad IPv4 notation.
pub open spec fn is_ipv4(s: Seq<char>) -> bool {
    let parts = split(s, '.');
    &&& parts.len() == 4
    &&& forall|i: int| 0 <= i < 4 ==> is_ipv4_octet(#[trigger] parts[i])
}

pub open spec fn is_hex_digit(c: char) -> bool {
    ||| '0' <= c <= '9'
    ||| 'a' <= c <= 'f'
    ||| 'A' <= c <= 'F'
}

/// One IPv6 group: one to four hexadecimal digits.
pub open spec fn is_hex_group(s: Seq<char>) -> bool {
    &&& 1 <= s.len() <= 4
    &&& forall|i: int| 0 <= i < s.len() ==> is_hex_digit(#[trigger] s[i])
}

pub open spec fn all_hex_groups(p: Seq<Seq<char>>) -> bool {
    forall|i: int| 0 <= i < p.len() ==> is_hex_group(#[trigger] p[i])
}

/// Groups that take at most `room` of the eight 16-bit slots: hexadecimal
/// groups, the last of which may instead be an IPv4 address taking two slots.
pub open spec fn groups_within(p: Seq<Seq<char>>, room: int) -> bool {
    ||| all_hex_groups(p) && p.len() <= room
    ||| p.len() >= 1 && all_hex_groups(p.drop_last()) && is_ipv4(p.last()) && p.len() + 1 <= room
}

/// The position of the first `cc` in `s`, or -1.
pub open spec fn first_pair(s: Seq<char>, c: char) -> int
    decreases s.len(),
{
    if s.len() < 2 {
        -1
    } else if s[0] == c && s[1] == c {
        0
    } else if first_pair(s.drop_first(), c) < 0 {
        -1
    } else {
        first_pair(s.drop_first(), c) + 1
    }
}

/// IPv6 notation: eight groups, or fewer around one `::` that stands for at
/// least one zero group; the last two groups may be written as IPv4.
pub open spec fn is_ipv6(s: Seq<char>) -> bool {
    let k = first_pair(s, ':');
    if k < 0 {
        let p = split(s, ':');
        ||| p.len() == 8 && all_hex_groups(p)
        ||| p.len() == 7 && all_hex_groups(p.take(6)) && is_ipv4(p[6])
    } else {
        let head = colon_pieces(s.take(k));
        let tail = colon_pieces(s.skip(k + 2));
        &&& all_hex_groups(head)
        &&& groups_within(tail, 7 - head.len())
    }
}

/// What parses as an IP address of either family.
pub open spec fn is_ip_address(s: Seq<char>) -> bool {
    is_ipv4(s) || is_ipv6(s)
}

// ---------------------------------------------------------------------------
// Lemmas
// ---------------------------------------------------------------------------

/// Splitting one more character either opens a new piece or extends the last.
pub proof fn lemma_split_take(s: Seq<char>, c: char, i: int)
    requires
        0 <= i < s.len(),
    ensures
        s[i] == c ==> split(s.take(i + 1), c) == split(s.take(i), c).push(Seq::<char>::empty()),
        s[i] != c ==> split(s.take(i + 1), c) == split(s.take(i), c).drop_last().push(
            split(s.take(i), c).last().push(s[i]),
        ),
        split(s.take(i), c).len() >= 1,
{
    let t = s.take(i + 1);
    let u = s.take(i);
    lemma_split_nonempty(u, c);
    lemma_last_index_of(t, c);
    lemma_last_index_of(u, c);
    assert(t.drop_last() =~= u);
    if s[i] == c {
        assert(last_index_of(t, c) == i);
        assert(t.take(i) =~= u);
        assert(t.skip(i + 1) =~= Seq::<char>::empty());
    } else {
        assert(last_index_of(t, c) == last_index_of(u, c));
        let k = last_index_of(u, c);
        if k < 0 {
            assert(t =~= u.push(s[i]));
        } else {
            assert(t.take(k) =~= u.take(k));
            assert(t.skip(k + 1) =~= u.skip(k + 1).push(s[i]));
        }
    }
}

pub proof fn lemma_split_nonempty(s: Seq<char>, c: char)
    ensures
        split(s, c).len() >= 1,
    decreases s.len(),
{
    lemma_last_index_of(s, c);
    let k = last_index_of(s, c);
    if k >= 0 && k < s.len() {
        lemma_split_nonempty(s.take(k), c);
    }
}

pub proof fn lemma_first_pair(s: Seq<char>, c: char)
    ensures
        -1 <= first_pair(s, c) < s.len() - 1 || first_pair(s, c) == -1,
        first_pair(s, c) >= 0 ==> s[first_pair(s, c)] == c && s[first_pair(s, c) + 1] == c,
        forall|j: int|
            #![trigger s[j]]
            0 <= j < s.len() - 1 && (first_pair(s, c) < 0 || j < first_pair(s, c)) ==> !(s[j] == c
                && s[j + 1] == c),
    decreases s.len(),
{
    if s.len() >= 2 && !(s[0] == c && s[1] == c) {
        lemma_first_pair(s.drop_first(), c);
        assert forall|j: int|
            #![trigger s[j]]
            0 <= j < s.len() - 1 && (first_pair(s, c) < 0 || j < first_pair(s, c)) implies !(s[j]
                == c && s[j + 1] == c) by {
            if j > 0 {
                assert(s[j] == s.drop_first()[j - 1]);
                assert(s[j + 1] == s.drop_first()[j]);
            }
        }
    }
}

// ---------------------------------------------------------------------------
// Executable recognisers
// ---------------------------------------------------------------------------

/// The pieces of `s` between occurrences of `c`.
pub fn split_exec(s: &[char], c: char) -> (r: Vec<Vec<char>>)
    ensures
        r@.len() == split(s@, c).len(),
        forall|i: int| 0 <= i < r@.len() ==> (#[trigger] r@[i])@ == split(s@, c)[i],
{
    let mut parts: Vec<Vec<char>> = Vec::new();
    let mut cur: Vec<char> = Vec::new();
    let mut i: usize = 0;
    assert(s@.take(0) =~= Seq::<char>::empty());
    assert(last_index_of(Seq::<char>::empty(), c) == -1);
    while i < s.len()
        invariant
            i <= s@.len(),
            parts@.len() + 1 == split(s@.take(i as int), c).len(),
            forall|j: int| 0 <= j < parts@.len() ==> (#[trigger] parts@[j])@ == split(s@.take(i as int), c)[j],
            cur@ == split(s@.take(i as int), c).last(),
        decreases s@.len() - i,
    {
        proof {
            lemma_split_take(s@, c, i as int);
        }
        let ch = s[i];
        if ch == c {
            parts.push(cur);
            cur = Vec::new();
        } else {
            cur.push(ch);
        }
        i = i + 1;
    }
    assert(s@.take(s@.len() as int) =~= s@);
    parts.push(cur);
    parts
}

/// Whether a piece is one IPv4 octet.
fn is_ipv4_octet_exec(s: &[char]) -> (r: bool)
    ensures
        r == is_ipv4_octet(s@),
{
    if s.len() < 1 || s.len() > 3 {
        return false;
    }
    let mut v: u32 = 0;
    let mut i: usize = 0;
    while i < s.len()
        invariant
            1 <= s@.len() <= 3,
            i <= s@.len(),
            all_digits(s@.take(i as int)),
            v == digits_value(s@.take(i as int)),
            i == 0 ==> v == 0,
            i <= 1 ==> v < 10,
            i <= 2 ==> v < 100,
            v < 1000,
        decreases s@.len() - i,
    {
        proof {
            lemma_digits_value_take(s@, i as int);
        }
        let ch = s[i];
        if !('0' <= ch && ch <= '9') {
            assert(!is_digit(s@[i as int]));
            return false;
        }
        v = v * 10 + ((ch as u32) - 48);
        i = i + 1;
        assert(all_digits(s@.take(i as int))) by {
            assert forall|k: int| 0 <= k < i implies is_digit(#[trigger] s@.take(i as int)[k]) by {
                if k < i - 1 {
                    assert(s@.take(i as int)[k] == s@.take(i - 1)[k]);
                }
            }
        }
    }
    assert(s@.take(s@.len() as int) =~= s@);
    (s.len() == 1 || s[0] != '0') && v <= 255
}

/// Whether a piece is one IPv6 group.
fn is_hex_group_exec(s: &[char]) -> (r: bool)
    ensures
        r == is_hex_group(s@),
{
    if s.len() < 1 || s.len() > 4 {
        return false;
    }
    let mut i: usize = 0;
    while i < s.len()
        invariant
            i <= s@.len(),
            forall|k: int| 0 <= k < i ==> is_hex_digit(#[trigger] s@[k]),
        decreases s@.len() - i,
    {
        let ch = s[i];
        if !(('0' <= ch && ch <= '9') || ('a' <= ch && ch <= 'f') || ('A' <= ch && ch <= 'F')) {
            return false;
        }
        i = i + 1;
    }
    true
}

/// Whether the text is dotted-quad IPv4.
pub fn is_ipv4_exec(s: &[char]) -> (r: bool)
    ensures
        r == is_ipv4(s@),
{
    let parts = split_exec(s, '.');
    if parts.len() != 4 {
        return false;
    }
    let mut i: usize = 0;
    while i < 4
        invariant
            i <= 4,
            parts@.len() == 4,
            split(s@, '.').len() == 4,
            forall|j: int| 0 <= j < 4 ==> (#[trigger] parts@[j])@ == split(s@, '.')[j],
            forall|j: int| 0 <= j < i ==> is_ipv4_octet(#[trigger] split(s@, '.')[j]),
        decreases 4 - i,
    {
        if !is_ipv4_octet_exec(parts[i].as_slice()) {
            return false;
        }
        i = i + 1;
    }
    true
}

/// Whether every piece in `p[from..to]` is a hexadecimal group.
fn all_hex_exec(p: &Vec<Vec<char>>, from: usize, to: usize) -> (r: bool)
    requires
        from <= to <= p@.len(),
    ensures
        r == (forall|i: int| from <= i < to ==> is_hex_group((#[trigger] p@[i])@)),
{
    let mut i: usize = from;
    while i < to
        invariant
            from <= i <= to <= p@.len(),
            forall|k: int| from <= k < i ==> is_hex_group((#[trigger] p@[k])@),
        decreases to - i,
    {
        if !is_hex_group_exec(p[i].as_slice()) {
            return false;
        }
        i = i + 1;
    }
    true
}

/// The pieces between colons of `s[from..to]`; none when that is empty.
fn colon_pieces_exec(s: &[char], from: usize, to: usize) -> (r: Vec<Vec<char>>)
    requires
        from <= to <= s@.len(),
    ensures
        r@.len() == colon_pieces(s@.subrange(from as int, to as int)).len(),
        forall|i: int| 0 <= i < r@.len() ==> (#[trigger] r@[i])@ == colon_pieces(
            s@.subrange(from as int, to as int),
        )[i],
{
    if from == to {
        return Vec::new();
    }
    let mut v: Vec<char> = Vec::new();
    let mut i: usize = from;
    while i < to
        invariant
            from <= i <= to <= s@.len(),
            v@ == s@.subrange(from as int, i as int),
        decreases to - i,
    {
        v.push(s[i]);
        i = i + 1;
        assert(v@ =~= s@.subrange(from as int, i as int));
    }
    split_exec(v.as_slice(), ':')
}

/// Whether hexadecimal groups, the last possibly IPv4, fit in `room` slots.
fn groups_within_exec(p: &Vec<Vec<char>>, room: usize) -> (r: bool)
    ensures
        r == groups_within(p@.map_values(|v: Vec<char>| v@), room as int),
{
    let ghost q = p@.map_values(|v: Vec<char>| v@);
    let n = p.len();
    assert forall|i: int| 0 <= i < n implies #[trigger] q[i] == p@[i]@ by {}
    let all = all_hex_exec(p, 0, n);
    proof {
        lemma_all_hex_prefix(p@, q, n as int);
    }
    if all && n <= room {
        return true;
    }
    if n == 0 {
        return false;
    }
    let head_hex = all_hex_exec(p, 0, n - 1);
    proof {
        lemma_all_hex_prefix(p@, q, n - 1);
        assert(q.take(n - 1) =~= q.drop_last());
    }
    let last_v4 = is_ipv4_exec(p[n - 1].as_slice());
    assert(q.last() == p@[n - 1]@);
    let fits = n < room;
    head_hex && last_v4 && fits
}

/// The groups of a prefix are hexadecimal exactly when the pieces are.
proof fn lemma_all_hex_prefix(p: Seq<Vec<char>>, q: Seq<Seq<char>>, m: int)
    requires
        0 <= m <= p.len(),
        q.len() == p.len(),
        forall|i: int| 0 <= i < p.len() ==> #[trigger] q[i] == p[i]@,
    ensures
        (forall|i: int| 0 <= i < m ==> is_hex_group((#[trigger] p[i])@)) == all_hex_groups(
            q.take(m),
        ),
        m == p.len() ==> q.take(m) == q,
{
    if forall|i: int| 0 <= i < m ==> is_hex_group((#[trigger] p[i])@) {
        assert forall|i: int| 0 <= i < q.take(m).len() implies is_hex_group(
            #[trigger] q.take(m)[i],
        ) by {
            assert(q.take(m)[i] == p[i]@);
        }
    }
    if all_hex_groups(q.take(m)) {
        assert forall|i: int| 0 <= i < m implies is_hex_group((#[trigger] p[i])@) by {
            assert(q.take(m)[i] == p[i]@);
        }
    }
    if m == p.len() {
        assert(q.take(m) =~= q);
    }
}

/// The position of the first `cc` in the text.
fn find_pair(s: &[char], c: char) -> (r: Option<usize>)
    ensures
        match r {
            Some(k) => k == first_pair(s@, c) && k + 1 < s@.len(),
            None => first_pair(s@, c) < 0,
        },
{
    proof {
        lemma_first_pair(s@, c);
    }
    let n = s.len();
    let mut k: usize = 0;
    while n - k > 1
        invariant
            n == s@.len(),
            k <= n,
            forall|j: int| #![trigger s@[j]] 0 <= j < k && j < n - 1 ==> !(s@[j] == c && s@[j + 1] == c),
        decreases n - k,
    {
        if s[k] == c && s[k + 1] == c {
            assert(first_pair(s@, c) == k) by {
                lemma_first_pair(s@, c);
                let f = first_pair(s@, c);
                assert(s@[k as int] == c);
                if 0 <= f < k {
                    assert(s@[f] == c);
                }
            }
            return Some(k);
        }
        k = k + 1;
    }
    assert(first_pair(s@, c) < 0) by {
        let f = first_pair(s@, c);
        if f >= 0 {
            assert(s@[f] == c);
        }
    }
    None
}

/// Whether the text is IPv6 notation.
pub fn is_ipv6_exec(s: &[char]) -> (r: bool)
    ensures
        r == is_ipv6(s@),
{
    let n = s.len();
    match find_pair(s, ':') {
        None => {
            let p = split_exec(s, ':');
            let ghost q = split(s@, ':');
            if p.len() == 8 {
                let all = all_hex_exec(&p, 0, 8);
                proof {
                    lemma_all_hex_prefix(p@, q, 8);
                }
                return all;
            }
            if p.len() == 7 {
                let head = all_hex_exec(&p, 0, 6);
                proof {
                    lemma_all_hex_prefix(p@, q, 6);
                }
                let last = is_ipv4_exec(p[6].as_slice());
                return head && last;
            }
            false
        },
        Some(k) => {
            let head = colon_pieces_exec(s, 0, k);
            let tail = colon_pieces_exec(s, k + 2, n);
            let ghost hq = colon_pieces(s@.take(k as int));
            let ghost tq = colon_pieces(s@.skip(k + 2));
            assert(s@.subrange(0, k as int) =~= s@.take(k as int));
            assert(s@.subrange(k + 2, n as int) =~= s@.skip(k + 2));
            let head_ok = all_hex_exec(&head, 0, head.len());
            proof {
                lemma_all_hex_prefix(head@, hq, hq.len() as int);
            }
            if !head_ok || head.len() > 7 {
                return false;
            }
            let room: usize = 7 - head.len();
            let ok = groups_within_exec(&tail, room);
            assert(tail@.map_values(|v: Vec<char>| v@) =~= tq);
            ok
        },
    }
}

/// Whether the text parses as an IP address of either family.
pub fn is_ip_address_exec(s: &[char]) -> (r: bool)
    ensures
        r == is_ip_address(s@),
{
    is_ipv4_exec(s) || is_ipv6_exec(s)
}

} // verus!
