//! Preparing configuration text for the TOML decoder and explaining what the
//! decoder rejects.

use vstd::prelude::*;
use vstd::string::*;
use crate::error::ConfigError;
use crate::text::{
    append_decimal, append_str, chars_of, count_char, eq_ignore_ascii_case, eq_ignore_case, first_index_of,
    is_ws, char_is_ws, lemma_count_char_pos, lemma_first_index_of, lemma_trim_start_is_suffix, push_char,
    string_from, sub_chars, trim, trim_chars, trim_start,
};

verus! {

/// Loads and checks configuration files.
pub struct ConfigLoader;

/// The TOML decoder's error.
#[verifier::external_type_specification]
#[verifier::external_body]
pub struct ExTomlDeError(toml::de::Error);

/// `toml::de::Error::message`: what the decoder says went wrong. Nothing is
/// claimed of the text.
#[verifier::external_body]
fn toml_error_message(e: &toml::de::Error) -> (r: String) {
    e.message().to_string()
}

/// `toml::de::Error::span`, reduced to where the offending text starts, as a
/// byte offset into the decoded document. Nothing is claimed of the offset.
#[verifier::external_body]
fn toml_error_start(e: &toml::de::Error) -> (r: Option<usize>) {
    e.span().map(|span| span.start)
}

/// The UTF-8 encoding of a text.
pub open spec fn utf8_encoding(s: Seq<char>) -> Seq<u8> {
    vstd::utf8::encode_utf8(s)
}

/// The UTF-8 bytes of a text.
pub fn utf8_bytes(s: &str) -> (r: Vec<u8>)
    ensures
        r@ == utf8_encoding(s@),
{
    vstd::slice::slice_to_vec(s.as_bytes())
}

/// Number of bytes in the UTF-8 encoding of a character.
pub open spec fn utf8_width(c: char) -> nat {
    if (c as u32) < 0x80 {
        1
    } else if (c as u32) < 0x800 {
        2
    } else if (c as u32) < 0x10000 {
        3
    } else {
        4
    }
}

/// Number of bytes in the UTF-8 encoding of a text.
pub open spec fn utf8_size(s: Seq<char>) -> nat
    decreases s.len(),
{
    if s.len() == 0 {
        0
    } else {
        utf8_size(s.drop_last()) + utf8_width(s.last())
    }
}

/// Byte offset `n` of the encoding of `s` falls between two characters.
pub open spec fn is_boundary(s: Seq<char>, n: int) -> bool
    decreases s.len(),
{
    n == 0 || (s.len() > 0 && utf8_width(s[0]) <= n && is_boundary(s.drop_first(), n - utf8_width(s[0])))
}

/// One line of configuration with an unquoted `null` source address quoted,
/// so that the decoder reads it as a string; `None` where the line would be
/// cut inside a character.
pub open spec fn sanitized_line(body: Seq<char>) -> Option<Seq<char>> {
    let eq = first_index_of(body, '=');
    if eq < 0 {
        Some(body)
    } else if !eq_ignore_ascii_case(trim(body.take(eq)), "source_ip"@) {
        Some(body)
    } else {
        let rest = body.skip(eq + 1);
        let tr = trim_start(rest);
        if utf8_size(tr) < 4 {
            Some(body)
        } else if !is_boundary(tr, 4) {
            None
        } else if !(tr.len() >= 4 && eq_ignore_ascii_case(tr.take(4), "null"@)) {
            Some(body)
        } else {
            let rem = tr.skip(4);
            if rem.len() == 0 || is_ws(rem[0]) || rem[0] == '#' {
                Some(body.take(eq + 1) + rest.take(rest.len() - tr.len()) + "\"null\""@ + rem)
            } else {
                Some(body)
            }
        }
    }
}

/// The text with every line sanitized, line breaks kept.
pub open spec fn sanitized(s: Seq<char>) -> Option<Seq<char>>
    decreases s.len(),
{
    let k = first_index_of(s, '\n');
    if k < 0 || k >= s.len() {
        sanitized_line(s)
    } else {
        match (sanitized_line(s.take(k)), sanitized(s.skip(k + 1))) {
            (Some(a), Some(b)) => Some(a + seq!['\n'] + b),
            _ => None,
        }
    }
}

/// Line and column (both from 1) after the given bytes: a line feed starts a
/// new line, a carriage return goes back to column 1, any other byte moves one
/// column on.
pub open spec fn line_col(b: Seq<u8>) -> (nat, nat)
    decreases b.len(),
{
    if b.len() == 0 {
        (1, 1)
    } else {
        let (l, c) = line_col(b.drop_last());
        if b.last() == 10 {
            (l + 1, 1)
        } else if b.last() == 13 {
            (l, 1)
        } else {
            (l, c + 1)
        }
    }
}

/// What a decoding error becomes: a missing field is named, anything else is
/// reported with its position.
pub open spec fn toml_error_text(line: nat, col: nat, message: Seq<char>) -> Seq<char> {
    "TOML parse error at line "@ + crate::text::decimal(line) + ", column "@ + crate::text::decimal(col)
        + ": "@ + message
        + "\nTip: Check for syntax errors like 'null' values (should be omitted), missing quotes, or invalid data types"@
}

/// Where a decoding failure is reported: the line and column of its start,
/// or (0, 0) when the decoder gave none.
pub open spec fn failure_position(content: Seq<u8>, span_start: Option<usize>) -> (nat, nat) {
    match span_start {
        Some(o) => line_col(content.take(if o < content.len() { o as int } else { content.len() as int })),
        None => (0, 0),
    }
}

/// The configuration error for a decoding failure of `content` with this
/// message and start: the field a "missing field" message names, or else
/// the message with its line and column.
pub open spec fn decoder_error(content: Seq<u8>, message: Seq<char>, span_start: Option<usize>, r: ConfigError) -> bool {
    match missing_field(message) {
        Some(f) => r matches ConfigError::MissingRequiredField(g) && g@ == f,
        None => r matches ConfigError::InvalidTomlFormat(t) && t@ == toml_error_text(
            failure_position(content, span_start).0,
            failure_position(content, span_start).1,
            message,
        ),
    }
}

/// The field named by a "missing field `...`" message, if it is one.
pub open spec fn missing_field(message: Seq<char>) -> Option<Seq<char>> {
    let prefix = "missing field `"@;
    if message.len() >= prefix.len() && message.take(prefix.len() as int) == prefix {
        let field = message.skip(prefix.len() as int);
        let end = first_index_of(field, '`');
        if end >= 0 {
            Some(field.take(end))
        } else {
            None
        }
    } else {
        None
    }
}

pub(crate) proof fn lemma_utf8_size_take(s: Seq<char>, i: int)
    requires
        0 <= i < s.len(),
    ensures
        utf8_size(s.take(i + 1)) == utf8_size(s.take(i)) + utf8_width(s[i]),
{
    assert(s.take(i + 1).drop_last() =~= s.take(i));
}

proof fn lemma_utf8_size_mono(s: Seq<char>, i: int)
    requires
        0 <= i <= s.len(),
    ensures
        utf8_size(s.take(i)) <= utf8_size(s),
    decreases s.len() - i,
{
    if i < s.len() {
        lemma_utf8_size_take(s, i);
        lemma_utf8_size_mono(s, i + 1);
    } else {
        assert(s.take(i) =~= s);
    }
}

pub(crate) fn utf8_width_exec(c: char) -> (r: u32)
    ensures
        r == utf8_width(c),
{
    let u = c as u32;
    if u < 0x80 {
        1
    } else if u < 0x800 {
        2
    } else if u < 0x10000 {
        3
    } else {
        4
    }
}

/// Whether the encoding of `s` is shorter than four bytes.
fn shorter_than_four_bytes(s: &[char]) -> (r: bool)
    ensures
        r == (utf8_size(s@) < 4),
{
    let mut sum: u32 = 0;
    let mut j: usize = 0;
    while j < s.len() && sum < 4
        invariant
            j <= s@.len(),
            sum == utf8_size(s@.take(j as int)),
            sum < 8,
        decreases s@.len() - j,
    {
        proof {
            lemma_utf8_size_take(s@, j as int);
        }
        sum = sum + utf8_width_exec(s[j]);
        j = j + 1;
    }
    proof {
        lemma_utf8_size_mono(s@, j as int);
        if j == s@.len() {
            assert(s@.take(j as int) =~= s@);
        }
    }
    sum < 4
}

/// Whether byte offset four of the encoding of `s` falls between characters.
fn boundary_at_four(s: &[char]) -> (r: bool)
    ensures
        r == is_boundary(s@, 4),
{
    let mut rem: u32 = 4;
    let mut j: usize = 0;
    assert(s@.skip(0) =~= s@);
    while rem > 0 && j < s.len() && utf8_width_exec(s[j]) <= rem
        invariant
            j <= s@.len(),
            rem <= 4,
            is_boundary(s@, 4) == is_boundary(s@.skip(j as int), rem as int),
        decreases s@.len() - j,
    {
        assert(s@.skip(j as int).drop_first() =~= s@.skip(j + 1));
        rem = rem - utf8_width_exec(s[j]);
        j = j + 1;
    }
    rem == 0
}

/// One sanitized line.
fn sanitize_line(body: &[char]) -> (r: Option<Vec<char>>)
    ensures
        match sanitized_line(body@) {
            Some(t) => r matches Some(v) && v@ == t,
            None => r is None,
        },
{
    let keep = Some(sub_chars(body, 0, body.len()));
    assert(body@.subrange(0, body@.len() as int) =~= body@);
    proof {
        lemma_first_index_of(body@, '=');
    }
    let eq = match crate::text::first_index_exec(body, '=') {
        Some(e) => e,
        None => return keep,
    };
    let key = sub_chars(body, 0, eq);
    let key_t = trim_chars(key.as_slice());
    let source_ip = chars_of("source_ip");
    assert(key@ == body@.take(eq as int));
    if !eq_ignore_case(key_t.as_slice(), source_ip.as_slice()) {
        return keep;
    }
    let rest = sub_chars(body, eq + 1, body.len());
    assert(rest@ =~= body@.skip(eq + 1));
    let rest_t = trim_chars_start(rest.as_slice());
    let tr = rest_t.1;
    if shorter_than_four_bytes(tr.as_slice()) {
        return keep;
    }
    if !boundary_at_four(tr.as_slice()) {
        return None;
    }
    let null = chars_of("null");
    if tr.len() < 4 {
        return keep;
    }
    let head4 = sub_chars(tr.as_slice(), 0, 4);
    assert(head4@ =~= tr@.take(4));
    if !eq_ignore_case(head4.as_slice(), null.as_slice()) {
        return keep;
    }
    let rem = sub_chars(tr.as_slice(), 4, tr.len());
    assert(rem@ =~= tr@.skip(4));
    if rem.len() == 0 || char_is_ws(rem[0]) || rem[0] == '#' {
        let mut out = sub_chars(body, 0, eq + 1);
        assert(out@ =~= body@.take(eq + 1));
        let ws = sub_chars(rest.as_slice(), 0, rest_t.0);
        assert(ws@ =~= rest@.take(rest@.len() - tr@.len()));
        let quoted = chars_of("\"null\"");
        append_chars(&mut out, ws.as_slice());
        append_chars(&mut out, quoted.as_slice());
        append_chars(&mut out, rem.as_slice());
        Some(out)
    } else {
        keep
    }
}

/// Appends characters to a vector of characters.
fn append_chars(v: &mut Vec<char>, t: &[char])
    ensures
        final(v)@ == old(v)@ + t@,
{
    let mut i: usize = 0;
    let ghost v0 = v@;
    while i < t.len()
        invariant
            i <= t@.len(),
            v@ == v0 + t@.take(i as int),
        decreases t@.len() - i,
    {
        v.push(t[i]);
        i = i + 1;
        assert(v@ =~= v0 + t@.take(i as int));
    }
    assert(t@.take(t@.len() as int) =~= t@);
}

/// `str::trim_start`: the number of characters dropped, and those kept.
fn trim_chars_start(s: &[char]) -> (r: (usize, Vec<char>))
    ensures
        r.1@ == trim_start(s@),
        r.0 == s@.len() - trim_start(s@).len(),
{
    proof {
        crate::text::lemma_trim_start_is_suffix(s@);
    }
    let n = s.len();
    let mut start: usize = 0;
    assert(s@.subrange(0, n as int) =~= s@);
    while start < n && char_is_ws(s[start])
        invariant
            n == s@.len(),
            start <= n,
            trim_start(s@) == trim_start(s@.subrange(start as int, n as int)),
        decreases n - start,
    {
        assert(s@.subrange(start as int, n as int).drop_first() =~= s@.subrange(start + 1, n as int));
        start = start + 1;
    }
    let kept = sub_chars(s, start, n);
    (start, kept)
}

/// Whether the caller may pass this text to `sanitize_special_values`: no line
/// setting `source_ip` would be cut inside a character.
pub open spec fn can_sanitize(content: &str) -> bool {
    sanitized(content@) is Some
}

/// `prefix` in front of the text, if there is one.
pub open spec fn prefixed(prefix: Seq<char>, rest: Option<Seq<char>>) -> Option<Seq<char>> {
    match rest {
        Some(t) => Some(prefix + t),
        None => None,
    }
}

/// The sanitized text, or nothing when a line setting `source_ip` would be
/// cut inside a character.
fn sanitize_text(content: &str) -> (r: Option<String>)
    ensures
        match sanitized(content@) {
            Some(t) => r matches Some(v) && v@ == t,
            None => r is None,
        },
{
    let cs = chars_of(content);
    let n = cs.len();
    let mut out = String::new();
    let mut start: usize = 0;
    assert(cs@.skip(0) =~= cs@);
    assert(out@ + sanitized(cs@).unwrap() =~= sanitized(cs@).unwrap());
    loop
        invariant
            n == cs@.len(),
            cs@ == content@,
            start <= n,
            sanitized(cs@) == prefixed(out@, sanitized(cs@.skip(start as int))),
        decreases n - start,
    {
        let rest = sub_chars(cs.as_slice(), start, n);
        assert(rest@ =~= cs@.skip(start as int));
        proof {
            lemma_first_index_of(rest@, '\n');
        }
        match crate::text::first_index_exec(rest.as_slice(), '\n') {
            None => {
                match sanitize_line(rest.as_slice()) {
                    Some(l) => {
                        append_chars_to_string(&mut out, l.as_slice());
                        return Some(out);
                    },
                    None => {
                        return None;
                    },
                }
            },
            Some(k) => {
                let body = sub_chars(rest.as_slice(), 0, k);
                assert(body@ =~= rest@.take(k as int));
                assert(rest@.skip(k + 1) =~= cs@.skip(start + k + 1));
                match sanitize_line(body.as_slice()) {
                    Some(l) => {
                        let ghost before = out@;
                        append_chars_to_string(&mut out, l.as_slice());
                        push_char(&mut out, '\n');
                        proof {
                            match sanitized(cs@.skip(start + k + 1)) {
                                Some(t) => {
                                    assert(before + (l@ + seq!['\n'] + t) =~= out@ + t);
                                },
                                None => {},
                            }
                        }
                        start = start + k + 1;
                    },
                    None => {
                        return None;
                    },
                }
            },
        }
    }
}

impl ConfigLoader {
    /// Quotes unquoted `null` values of `source_ip` keys, line by line, so that
    /// the TOML decoder reads them as strings; the check of the configuration
    /// then ignores them. No warnings are produced at this stage. The lines and
    /// line breaks stay as they were, and so does every line that does not set
    /// `source_ip` (`lemma_sanitized_keeps_lines`).
    pub fn sanitize_special_values(content: &str) -> (r: (String, Vec<String>))
        requires
            can_sanitize(content),
        ensures
            r.0@ == sanitized(content@).unwrap(),
            r.1@.len() == 0,
    {
        match sanitize_text(content) {
            Some(t) => (t, Vec::new()),
            None => (String::new(), Vec::new()),
        }
    }

    /// Whether `sanitize_special_values` may be given this text: no line
    /// setting `source_ip` has a value whose first four bytes end inside a
    /// character.
    pub fn can_sanitize_text(content: &str) -> (r: bool)
        ensures
            r == can_sanitize(content),
    {
        sanitize_text(content).is_some()
    }

    /// Line and column (both from 1) of a byte offset in the text; offsets
    /// past the end stand for the end.
    pub fn offset_to_line_col(content: &str, offset: usize) -> (r: (usize, usize))
        requires
            content.spec_bytes().len() < usize::MAX,
        ensures
            r.0 == line_col(content.spec_bytes().take(
                if offset < content.spec_bytes().len() {
                    offset as int
                } else {
                    content.spec_bytes().len() as int
                },
            )).0,
            r.1 == line_col(content.spec_bytes().take(
                if offset < content.spec_bytes().len() {
                    offset as int
                } else {
                    content.spec_bytes().len() as int
                },
            )).1,
    {
        let bytes = content.as_bytes();
        let upto = if offset < bytes.len() {
            offset
        } else {
            bytes.len()
        };
        let mut line: usize = 1;
        let mut column: usize = 1;
        let mut i: usize = 0;
        while i < upto
            invariant
                upto <= bytes@.len() < usize::MAX,
                i <= upto,
                (line as nat, column as nat) == line_col(bytes@.take(i as int)),
                line <= i + 1,
                column <= i + 1,
            decreases upto - i,
        {
            assert(bytes@.take(i + 1).drop_last() =~= bytes@.take(i as int));
            let b = bytes[i];
            if b == 10 {
                line = line + 1;
                column = 1;
            } else if b == 13 {
                column = 1;
            } else {
                column = column + 1;
            }
            i = i + 1;
        }
        (line, column)
    }

    /// The configuration error for a decoding failure, from the decoder's
    /// message and the byte offset where the failure starts, if known.
    pub fn map_toml_error_parts(content: &str, message: &str, span_start: Option<usize>) -> (r:
        ConfigError)
        requires
            content.spec_bytes().len() < usize::MAX,
        ensures
            decoder_error(content.spec_bytes(), message@, span_start, r),
    {
        let m = chars_of(message);
        let prefix = chars_of("missing field `");
        if m.len() >= prefix.len() {
            let head = sub_chars(m.as_slice(), 0, prefix.len());
            assert(head@ =~= m@.take(prefix@.len() as int));
            if crate::text::eq_chars(head.as_slice(), prefix.as_slice()) {
                let field = sub_chars(m.as_slice(), prefix.len(), m.len());
                assert(field@ =~= m@.skip(prefix@.len() as int));
                proof {
                    lemma_first_index_of(field@, '`');
                }
                match crate::text::first_index_exec(field.as_slice(), '`') {
                    Some(end) => {
                        let name = crate::text::string_of_range(field.as_slice(), 0, end);
                        assert(name@ =~= field@.take(end as int));
                        return ConfigError::MissingRequiredField(name);
                    },
                    None => {},
                }
            }
        }
        let (line, column) = match span_start {
            Some(o) => ConfigLoader::offset_to_line_col(content, o),
            None => (0, 0),
        };
        let mut t = string_from("TOML parse error at line ");
        append_decimal(&mut t, line as u64);
        append_str(&mut t, ", column ");
        append_decimal(&mut t, column as u64);
        append_str(&mut t, ": ");
        append_str(&mut t, message);
        append_str(
            &mut t,
            "\nTip: Check for syntax errors like 'null' values (should be omitted), missing quotes, or invalid data types",
        );
        ConfigError::InvalidTomlFormat(t)
    }

    /// The configuration error for a decoding failure of `content`: a missing
    /// field is named, any other failure is described with its line and column.
    pub fn map_toml_error(content: &str, error: toml::de::Error) -> (r: ConfigError)
        requires
            content.spec_bytes().len() < usize::MAX,
        ensures
            exists|message: Seq<char>, start: Option<usize>| decoder_error(content.spec_bytes(), message, start, r),
    {
        let message = toml_error_message(&error);
        let start = toml_error_start(&error);
        ConfigLoader::map_toml_error_parts(content, message.as_str(), start)
    }

    /// The files looked for, in order, when no path is given.
    pub fn get_config_search_paths() -> (r: Vec<String>)
        ensures
            r@.len() == 3,
            r@[0]@ == "default.toml"@,
            r@[1]@ == "config.toml"@,
            r@[2]@ == "gsc-fq.toml"@,
    {
        let mut paths: Vec<String> = Vec::new();
        paths.push(string_from("default.toml"));
        paths.push(string_from("config.toml"));
        paths.push(string_from("gsc-fq.toml"));
        paths
    }
}

/// Appends characters to a string.
fn append_chars_to_string(s: &mut String, t: &[char])
    ensures
        final(s)@ == old(s)@ + t@,
{
    let mut i: usize = 0;
    let ghost s0 = s@;
    while i < t.len()
        invariant
            i <= t@.len(),
            s@ == s0 + t@.take(i as int),
        decreases t@.len() - i,
    {
        push_char(s, t[i]);
        i = i + 1;
        assert(s@ =~= s0 + t@.take(i as int));
    }
    assert(t@.take(t@.len() as int) =~= t@);
}

// ---------------------------------------------------------------------------
// What sanitizing keeps
// ---------------------------------------------------------------------------

/// The lines of a text, as `str::split('\n')` yields them.
pub open spec fn text_lines(s: Seq<char>) -> Seq<Seq<char>>
    decreases s.len(),
{
    let k = first_index_of(s, '\n');
    if k < 0 || k >= s.len() {
        seq![s]
    } else {
        seq![s.take(k)] + text_lines(s.skip(k + 1))
    }
}

/// A line sets the source address: its key, before the first `=`, is
/// `source_ip` in any letter case.
pub open spec fn sets_source_ip(line: Seq<char>) -> bool {
    let eq = first_index_of(line, '=');
    eq >= 0 && eq_ignore_ascii_case(trim(line.take(eq)), "source_ip"@)
}

proof fn lemma_count_char_concat(a: Seq<char>, b: Seq<char>, c: char)
    ensures
        count_char(a + b, c) == count_char(a, c) + count_char(b, c),
    decreases b.len(),
{
    if b.len() == 0 {
        assert(a + b =~= a);
    } else {
        lemma_count_char_concat(a, b.drop_last(), c);
        assert((a + b).drop_last() =~= a + b.drop_last());
    }
}

/// In a text where `c` first appears right after `a`, its first position is
/// the length of `a`.
proof fn lemma_first_index_after(a: Seq<char>, b: Seq<char>, c: char)
    requires
        !a.contains(c),
    ensures
        first_index_of(a + seq![c] + b, c) == a.len(),
    decreases a.len(),
{
    let t = a + seq![c] + b;
    if a.len() == 0 {
        assert(t[0] == c);
    } else {
        assert(t[0] == a[0]);
        assert(a[0] != c);
        assert(!a.drop_first().contains(c)) by {
            if a.drop_first().contains(c) {
                let j = choose|j: int| 0 <= j < a.drop_first().len() && a.drop_first()[j] == c;
                assert(a[j + 1] == c);
            }
        }
        lemma_first_index_after(a.drop_first(), b, c);
        assert(t.drop_first() =~= a.drop_first() + seq![c] + b);
    }
}

/// Sanitizing a line brings no line break into it.
proof fn lemma_sanitized_line_unbroken(body: Seq<char>)
    requires
        !body.contains('\n'),
        sanitized_line(body) is Some,
    ensures
        !sanitized_line(body).unwrap().contains('\n'),
{
    let eq = first_index_of(body, '=');
    lemma_first_index_of(body, '=');
    if eq >= 0 && eq_ignore_ascii_case(trim(body.take(eq)), "source_ip"@) {
        let rest = body.skip(eq + 1);
        let tr = trim_start(rest);
        lemma_trim_start_is_suffix(rest);
        let r = sanitized_line(body).unwrap();
        if r != body {
            reveal_strlit("\"null\"");
            let lit = "\"null\""@;
            assert(lit =~= seq!['"', 'n', 'u', 'l', 'l', '"']);
            let head = body.take(eq + 1) + rest.take(rest.len() - tr.len());
            let rem = tr.skip(4);
            assert(r == head + lit + rem);
            assert forall|j: int| 0 <= j < r.len() implies r[j] != '\n' by {
                if j < eq + 1 {
                    assert(r[j] == body[j]);
                } else if j < head.len() {
                    assert(r[j] == body[j]);
                } else if j < head.len() + lit.len() {
                    assert(r[j] == lit[j - head.len()]);
                } else {
                    let o = j - head.len() - lit.len();
                    assert(r[j] == tr[4 + o]);
                    assert(tr[4 + o] == rest[rest.len() - tr.len() + 4 + o]);
                    assert(r[j] == body[eq + 1 + rest.len() - tr.len() + 4 + o]);
                }
                assert(!body.contains('\n'));
            }
        }
    }
}

/// Sanitizing keeps the line breaks, and so the lines, of a text, and copies
/// every line that does not set the source address as it was.
pub proof fn lemma_sanitized_keeps_lines(s: Seq<char>)
    requires
        sanitized(s) is Some,
    ensures
        count_char(sanitized(s).unwrap(), '\n') == count_char(s, '\n'),
        text_lines(sanitized(s).unwrap()).len() == text_lines(s).len(),
        forall|i: int|
            0 <= i < text_lines(s).len() && !sets_source_ip(#[trigger] text_lines(s)[i]) ==> text_lines(
                sanitized(s).unwrap(),
            )[i] == text_lines(s)[i],
    decreases s.len(),
{
    let k = first_index_of(s, '\n');
    lemma_first_index_of(s, '\n');
    let t = sanitized(s).unwrap();
    if k < 0 || k >= s.len() {
        assert(!s.contains('\n'));
        lemma_sanitized_line_unbroken(s);
        lemma_first_index_of(t, '\n');
        lemma_count_char_pos(s, '\n');
        lemma_count_char_pos(t, '\n');
        assert(text_lines(t) == seq![t]);
        assert(text_lines(s) == seq![s]);
    } else {
        let line = s.take(k);
        let tail = s.skip(k + 1);
        assert(!line.contains('\n')) by {
            if line.contains('\n') {
                let j = choose|j: int| 0 <= j < line.len() && line[j] == '\n';
                assert(s[j] == '\n');
            }
        }
        lemma_sanitized_line_unbroken(line);
        let a = sanitized_line(line).unwrap();
        let b = sanitized(tail).unwrap();
        assert(t == a + seq!['\n'] + b);
        lemma_sanitized_keeps_lines(tail);
        lemma_first_index_after(a, b, '\n');
        assert(t.take(a.len() as int) =~= a);
        assert(t.skip(a.len() as int + 1) =~= b);
        assert(text_lines(t) == seq![a] + text_lines(b));
        assert(text_lines(s) == seq![line] + text_lines(tail));
        lemma_count_char_pos(a, '\n');
        lemma_count_char_pos(line, '\n');
        lemma_count_char_concat(a + seq!['\n'], b, '\n');
        lemma_count_char_concat(a, seq!['\n'], '\n');
        assert(s =~= line + seq!['\n'] + tail);
        lemma_count_char_concat(line + seq!['\n'], tail, '\n');
        lemma_count_char_concat(line, seq!['\n'], '\n');
        assert(count_char(seq!['\n'], '\n') == 1) by {
            assert(seq!['\n'].drop_last() =~= Seq::<char>::empty());
            assert(count_char(Seq::<char>::empty(), '\n') == 0);
            assert(seq!['\n'].last() == '\n');
        }
        assert forall|i: int|
            0 <= i < text_lines(s).len() && !sets_source_ip(#[trigger] text_lines(s)[i]) implies text_lines(
                t,
            )[i] == text_lines(s)[i] by {
            if i > 0 {
                assert(text_lines(s)[i] == text_lines(tail)[i - 1]);
                assert(text_lines(t)[i] == text_lines(b)[i - 1]);
            }
        }
    }
}

} // verus!
