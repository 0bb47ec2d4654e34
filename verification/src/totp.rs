//! Time-based one-time passwords (RFC 6238) on top of HOTP (RFC 4226) with
//! HMAC-SHA1, as authenticator apps compute them.

use data_encoding::BASE32;
use rand::RngCore;
use std::time::{SystemTime, UNIX_EPOCH};
use vstd::prelude::*;
use crate::text::{append_decimal, append_str, chars_of, decimal, push_char, string_from};
use crate::loader::{utf8_size, utf8_width};

verus! {

// ---------------------------------------------------------------------------
// What the outside code computes
// ---------------------------------------------------------------------------

/// HMAC-SHA1 of `message` under `key`.
pub uninterp spec fn hmac_sha1(key: Seq<u8>, message: Seq<u8>) -> Seq<u8>;

/// Base32 (RFC 4648, padded) text of some bytes.
pub uninterp spec fn base32_encoding(data: Seq<u8>) -> Seq<char>;

/// Base32 decoding of some text: the bytes, or the decoder's complaint.
pub uninterp spec fn base32_decoding(text: Seq<u8>) -> Result<Seq<u8>, Seq<char>>;

/// Unicode upper-casing of a text.
pub uninterp spec fn uppercase(s: Seq<char>) -> Seq<char>;

/// Terminal drawing of the QR code of some bytes; none when they do not fit.
pub uninterp spec fn qr_drawing(data: Seq<u8>) -> Option<Seq<char>>;

/// `ring::hmac::sign` with `HMAC_SHA1_FOR_LEGACY_USE_ONLY`: the tag, which is
/// 20 bytes long, as SHA-1 output is.
#[verifier::external_body]
fn hmac_sha1_sign(key: &[u8], message: &[u8]) -> (tag: Vec<u8>)
    ensures
        tag@ == hmac_sha1(key@, message@),
        tag@.len() == 20,
{
    let k = ring::hmac::Key::new(ring::hmac::HMAC_SHA1_FOR_LEGACY_USE_ONLY, key);
    ring::hmac::sign(&k, message).as_ref().to_vec()
}

/// `data_encoding::BASE32.encode`.
#[verifier::external_body]
fn base32_encode(data: &[u8]) -> (r: String)
    ensures
        r@ == base32_encoding(data@),
{
    BASE32.encode(data)
}

/// `data_encoding::BASE32.decode`, with the decoder's error as its text.
#[verifier::external_body]
fn base32_decode(text: &[u8]) -> (r: Result<Vec<u8>, String>)
    ensures
        match r {
            Ok(v) => base32_decoding(text@) == Ok::<Seq<u8>, Seq<char>>(v@),
            Err(e) => base32_decoding(text@) == Err::<Seq<u8>, Seq<char>>(e@),
        },
{
    match BASE32.decode(text) {
        Ok(v) => Ok(v),
        Err(e) => Err(format!("{}", e)),
    }
}

/// `str::to_uppercase`.
#[verifier::external_body]
fn to_uppercase(s: &str) -> (r: String)
    ensures
        r@ == uppercase(s@),
{
    s.to_uppercase()
}

/// `qrcode::QrCode::new` on the bytes, rendered with characters, a quiet zone
/// and modules two characters wide; none when the code cannot be built.
#[verifier::external_body]
fn qr_render(data: &[u8]) -> (r: Option<String>)
    ensures
        match r {
            Some(s) => qr_drawing(data@) == Some(s@),
            None => qr_drawing(data@) is None,
        },
{
    match qrcode::QrCode::new(data) {
        Ok(code) => Some(code.render::<char>().quiet_zone(true).module_dimensions(2, 1).build()),
        Err(_) => None,
    }
}

/// Ten bytes from the thread's random generator (`rand::rng().fill_bytes`).
#[verifier::external_body]
fn random_secret() -> (r: Vec<u8>)
    ensures
        r@.len() == 10,
{
    let mut secret = [0u8; 10];
    rand::rng().fill_bytes(&mut secret);
    secret.to_vec()
}

/// Seconds since the Unix epoch by the system clock; a clock set before the
/// epoch reads 0. Nothing is claimed of the value.
#[verifier::external_body]
fn unix_now() -> (r: u64) {
    match SystemTime::now().duration_since(UNIX_EPOCH) {
        Ok(d) => d.as_secs(),
        Err(_) => 0,
    }
}

// ---------------------------------------------------------------------------
// HOTP / TOTP
// ---------------------------------------------------------------------------

pub open spec fn pow10(d: nat) -> nat
    decreases d,
{
    if d == 0 {
        1
    } else {
        10 * pow10((d - 1) as nat)
    }
}

/// The eight big-endian bytes of a counter.
pub open spec fn be_bytes(c: u64) -> Seq<u8> {
    seq![
        ((c >> 56u64) & 0xffu64) as u8,
        ((c >> 48u64) & 0xffu64) as u8,
        ((c >> 40u64) & 0xffu64) as u8,
        ((c >> 32u64) & 0xffu64) as u8,
        ((c >> 24u64) & 0xffu64) as u8,
        ((c >> 16u64) & 0xffu64) as u8,
        ((c >> 8u64) & 0xffu64) as u8,
        (c & 0xffu64) as u8,
    ]
}

/// RFC 4226 dynamic truncation: the low nibble of the last byte picks four
/// bytes, read big-endian without the top bit.
pub open spec fn dynamic_truncation(tag: Seq<u8>) -> u32 {
    let off = (tag[tag.len() - 1] & 0x0fu8) as int;
    (((tag[off] as u32) & 0x7fu32) << 24u32) | (((tag[off + 1] as u32) & 0xffu32) << 16u32) | (((tag[off
        + 2] as u32) & 0xffu32) << 8u32) | ((tag[off + 3] as u32) & 0xffu32)
}

/// The HOTP value of a counter with the given number of digits.
pub open spec fn hotp(key: Seq<u8>, counter: u64, digits: nat) -> u32 {
    (dynamic_truncation(hmac_sha1(key, be_bytes(counter))) as nat % pow10(digits)) as u32
}

pub open spec fn saturating_sub(a: u64, b: u64) -> u64 {
    if a >= b {
        (a - b) as u64
    } else {
        0
    }
}

pub open spec fn saturating_add(a: u64, b: u64) -> u64 {
    if a + b <= u64::MAX {
        (a + b) as u64
    } else {
        u64::MAX
    }
}

/// A TOTP generator: a shared secret, a code length and a 30 second step.
pub struct Totp {
    secret: Vec<u8>,
    digits: u32,
    step_secs: u64,
}

impl Totp {
    #[verifier::type_invariant]
    spec fn step_is_thirty(self) -> bool {
        self.step_secs == 30
    }

    /// The shared secret.
    pub closed spec fn secret_bytes(self) -> Seq<u8> {
        self.secret@
    }

    /// The number of digits of a code.
    pub closed spec fn digit_count(self) -> u32 {
        self.digits
    }

    /// The length of a time step in seconds.
    pub closed spec fn step(self) -> u64 {
        self.step_secs
    }

    /// The code for the step that holds the Unix time `t`.
    pub open spec fn code_at(self, t: u64) -> u32 {
        hotp(self.secret_bytes(), t / self.step(), self.digit_count() as nat)
    }

    /// A code is accepted at `now` when it is the code of the step before, of
    /// the current step, or of the step after.
    pub open spec fn accepts_at(self, code: u32, now: u64) -> bool {
        ||| code == self.code_at(saturating_sub(now, self.step()))
        ||| code == self.code_at(now)
        ||| code == self.code_at(saturating_add(now, self.step()))
    }

    /// A generator of six-digit codes.
    pub fn new(secret: Vec<u8>) -> (r: Totp)
        ensures
            r.secret_bytes() == secret@,
            r.digit_count() == 6,
            r.step() == 30,
    {
        Totp { secret, digits: 6, step_secs: 30 }
    }

    /// A generator of codes of the given length.
    pub fn with_digits(secret: Vec<u8>, digits: u32) -> (r: Totp)
        ensures
            r.secret_bytes() == secret@,
            r.digit_count() == digits,
            r.step() == 30,
    {
        Totp { secret, digits, step_secs: 30 }
    }

    /// The shared secret.
    pub fn secret(&self) -> (r: &Vec<u8>)
        ensures
            r@ == self.secret_bytes(),
    {
        &self.secret
    }

    /// The number of digits of a code.
    pub fn digits(&self) -> (r: u32)
        ensures
            r == self.digit_count(),
    {
        self.digits
    }

    /// The code for the step that holds the Unix time `timestamp`.
    pub fn generate(&self, timestamp: u64) -> (r: u32)
        requires
            self.digit_count() <= 9,
        ensures
            r == self.code_at(timestamp),
            r < pow10(self.digit_count() as nat),
    {
        proof {
            use_type_invariant(self);
        }
        let counter = timestamp / self.step_secs;
        let mut msg: Vec<u8> = Vec::new();
        msg.push(((counter >> 56u64) & 0xffu64) as u8);
        msg.push(((counter >> 48u64) & 0xffu64) as u8);
        msg.push(((counter >> 40u64) & 0xffu64) as u8);
        msg.push(((counter >> 32u64) & 0xffu64) as u8);
        msg.push(((counter >> 24u64) & 0xffu64) as u8);
        msg.push(((counter >> 16u64) & 0xffu64) as u8);
        msg.push(((counter >> 8u64) & 0xffu64) as u8);
        msg.push((counter & 0xffu64) as u8);
        assert(msg@ =~= be_bytes(counter));
        let tag = hmac_sha1_sign(self.secret.as_slice(), msg.as_slice());
        let last = tag[tag.len() - 1];
        let off = (last & 0x0fu8) as usize;
        assert((last & 0x0fu8) <= 15u8) by (bit_vector);
        let b1 = ((tag[off] as u32) & 0x7fu32) << 24u32;
        let b2 = ((tag[off + 1] as u32) & 0xffu32) << 16u32;
        let b3 = ((tag[off + 2] as u32) & 0xffu32) << 8u32;
        let b4 = (tag[off + 3] as u32) & 0xffu32;
        let code = b1 | b2 | b3 | b4;
        let p = pow10_u32(self.digits);
        code % p
    }

    /// The code for the current time.
    pub fn generate_current(&self) -> (r: u32)
        requires
            self.digit_count() <= 9,
        ensures
            exists|t: u64| r == self.code_at(t),
    {
        let now = unix_now();
        self.generate(now)
    }

    /// Whether a code is accepted at the Unix time `now`, allowing one step of
    /// clock drift either way.
    pub fn verify_at(&self, code: u32, now: u64) -> (r: bool)
        requires
            self.digit_count() <= 9,
        ensures
            r == self.accepts_at(code, now),
    {
        proof {
            use_type_invariant(self);
        }
        let before = now.saturating_sub(self.step_secs);
        if self.generate(before) == code {
            return true;
        }
        if self.generate(now) == code {
            return true;
        }
        let after = now.saturating_add(self.step_secs);
        self.generate(after) == code
    }

    /// Whether a code is accepted now, allowing one step of clock drift
    /// either way.
    pub fn verify(&self, code: u32) -> (r: bool)
        requires
            self.digit_count() <= 9,
        ensures
            exists|now: u64| r == self.accepts_at(code, now),
    {
        let now = unix_now();
        self.verify_at(code, now)
    }

    /// A generator of six-digit codes from a Base32 secret, as authenticator
    /// apps show it: spaces are dropped, letters upper-cased and padding
    /// added before decoding.
    pub fn from_base32(secret_b32: &str) -> (r: Result<Totp, String>)
        ensures
            match base32_decoding(crate::loader::utf8_encoding(base32_prepared(secret_b32@))) {
                Ok(bytes) => r matches Ok(t) && t.secret_bytes() == bytes && t.digit_count() == 6 && t.step()
                    == 30,
                Err(msg) => r matches Err(m) && m@ == "Invalid Base32 secret: "@ + msg,
            },
    {
        let no_spaces = remove_spaces(secret_b32);
        let upper = to_uppercase(no_spaces.as_str());
        let padded = pad_to_eight(&upper);
        let bytes = crate::loader::utf8_bytes(padded.as_str());
        match base32_decode(bytes.as_slice()) {
            Ok(v) => Ok(Totp::new(v)),
            Err(e) => {
                let mut m = string_from("Invalid Base32 secret: ");
                append_str(&mut m, e.as_str());
                Err(m)
            },
        }
    }

    /// The `otpauth://` URI that authenticator apps read.
    pub fn generate_otpauth_uri(&self, label: &str, issuer: &str) -> (r: String)
        ensures
            r@ == "otpauth://totp/"@ + label@ + "?secret="@ + base32_encoding(self.secret_bytes())
                + "&issuer="@ + issuer@ + "&digits="@ + decimal(self.digit_count() as nat)
                + "&period="@ + decimal(self.step() as nat),
    {
        let b32 = base32_encode(self.secret.as_slice());
        let mut r = string_from("otpauth://totp/");
        append_str(&mut r, label);
        append_str(&mut r, "?secret=");
        append_str(&mut r, b32.as_str());
        append_str(&mut r, "&issuer=");
        append_str(&mut r, issuer);
        append_str(&mut r, "&digits=");
        append_decimal(&mut r, self.digits as u64);
        append_str(&mut r, "&period=");
        append_decimal(&mut r, self.step_secs);
        r
    }

    /// A generator with a fresh random ten-byte secret, and that secret in
    /// Base32.
    pub fn generate_random() -> (r: (Totp, String))
        ensures
            r.0.secret_bytes().len() == 10,
            r.0.digit_count() == 6,
            r.1@ == base32_encoding(r.0.secret_bytes()),
    {
        let secret = random_secret();
        let b32 = base32_encode(secret.as_slice());
        (Totp::new(secret), b32)
    }

    /// The QR code of a URI, drawn for a terminal.
    pub fn render_qr_code(&self, uri: &str) -> (r: String)
        requires
            qr_drawing(crate::loader::utf8_encoding(uri@)) is Some,
        ensures
            r@ == qr_drawing(crate::loader::utf8_encoding(uri@)).unwrap(),
    {
        let bytes = crate::loader::utf8_bytes(uri);
        match qr_render(bytes.as_slice()) {
            Some(s) => s,
            None => String::new(),
        }
    }

    /// The QR code of a URI, drawn for a terminal; none when the URI is too
    /// long for a QR code.
    pub fn try_render_qr_code(&self, uri: &str) -> (r: Option<String>)
        ensures
            match r {
                Some(s) => qr_drawing(crate::loader::utf8_encoding(uri@)) == Some(s@),
                None => qr_drawing(crate::loader::utf8_encoding(uri@)) is None,
            },
    {
        let bytes = crate::loader::utf8_bytes(uri);
        match qr_render(bytes.as_slice()) {
            Some(s) => {
                let r = self.render_qr_code(uri);
                Some(r)
            },
            None => None,
        }
    }
}

/// `10^d`.
fn pow10_u32(d: u32) -> (r: u32)
    requires
        d <= 9,
    ensures
        r == pow10(d as nat),
        r >= 1,
{
    let mut r: u32 = 1;
    let mut i: u32 = 0;
    while i < d
        invariant
            i <= d <= 9,
            r == pow10(i as nat),
            1 <= r <= 1_000_000_000,
            i <= 8 ==> r <= 100_000_000,
            i <= 7 ==> r <= 10_000_000,
            i <= 6 ==> r <= 1_000_000,
            i <= 5 ==> r <= 100_000,
            i <= 4 ==> r <= 10_000,
            i <= 3 ==> r <= 1_000,
            i <= 2 ==> r <= 100,
            i <= 1 ==> r <= 10,
            i == 0 ==> r == 1,
        decreases d - i,
    {
        r = r * 10;
        i = i + 1;
    }
    r
}

/// A text without its spaces.
pub open spec fn without_spaces(s: Seq<char>) -> Seq<char>
    decreases s.len(),
{
    if s.len() == 0 {
        seq![]
    } else if s.last() == ' ' {
        without_spaces(s.drop_last())
    } else {
        without_spaces(s.drop_last()).push(s.last())
    }
}

/// `=` signs that bring a byte length up to a multiple of eight.
pub open spec fn padding(byte_len: nat) -> Seq<char> {
    Seq::new(((8 - byte_len % 8) % 8) as nat, |i: int| '=')
}

/// A Base32 secret made ready for decoding.
pub open spec fn base32_prepared(s: Seq<char>) -> Seq<char> {
    let u = uppercase(without_spaces(s));
    u + padding(utf8_size(u))
}

fn remove_spaces(s: &str) -> (r: String)
    ensures
        r@ == without_spaces(s@),
{
    let cs = chars_of(s);
    let mut r = String::new();
    let mut i: usize = 0;
    while i < cs.len()
        invariant
            cs@ == s@,
            i <= cs@.len(),
            r@ == without_spaces(cs@.take(i as int)),
        decreases cs@.len() - i,
    {
        assert(cs@.take(i + 1).drop_last() =~= cs@.take(i as int));
        if cs[i] != ' ' {
            push_char(&mut r, cs[i]);
        }
        i = i + 1;
    }
    assert(cs@.take(cs@.len() as int) =~= cs@);
    r
}

fn pad_to_eight(s: &String) -> (r: String)
    ensures
        r@ == s@ + padding(utf8_size(s@)),
{
    let cs = chars_of(s.as_str());
    let mut size: usize = 0;
    let mut i: usize = 0;
    while i < cs.len()
        invariant
            cs@ == s@,
            i <= cs@.len(),
            size == utf8_size(cs@.take(i as int)) % 8,
        decreases cs@.len() - i,
    {
        proof {
            crate::loader::lemma_utf8_size_take(cs@, i as int);
        }
        let w = crate::loader::utf8_width_exec(cs[i]);
        size = (size + (w as usize)) % 8;
        i = i + 1;
    }
    assert(cs@.take(cs@.len() as int) =~= cs@);
    let pad: usize = (8 - size) % 8;
    let mut r = s.clone();
    let mut k: usize = 0;
    while k < pad
        invariant
            k <= pad <= 7,
            pad == (8 - utf8_size(s@) % 8) % 8,
            r@ == s@ + Seq::new(k as nat, |j: int| '='),
        decreases pad - k,
    {
        push_char(&mut r, '=');
        k = k + 1;
        assert(r@ =~= s@ + Seq::new(k as nat, |j: int| '='));
    }
    r
}

// ---------------------------------------------------------------------------
// Laws
// ---------------------------------------------------------------------------

/// A code verifies in the time step it was generated for.
pub proof fn lemma_code_verifies(totp: Totp, t: u64)
    ensures
        totp.accepts_at(totp.code_at(t), t),
{
}

/// Two instants in the same time step have the same code.
pub proof fn lemma_same_step_same_code(totp: Totp, t1: u64, t2: u64)
    requires
        t1 / totp.step() == t2 / totp.step(),
    ensures
        totp.code_at(t1) == totp.code_at(t2),
{
}

/// Verification tolerates a clock one step ahead of or behind the generator.
pub proof fn lemma_one_step_drift(totp: Totp, t: u64)
    ensures
        t >= totp.step() ==> totp.accepts_at(totp.code_at((t - totp.step()) as u64), t),
        t + totp.step() <= u64::MAX ==> totp.accepts_at(totp.code_at((t + totp.step()) as u64), t),
{
}

} // verus!
