//! The reverse tunnel's control protocol: messages, their framing on the
//! control connection, the headers of tunnel streams and the configuration
//! hash both sides compute.

use sha2::Digest;
use vstd::prelude::*;
use crate::error::ReverseProxyError;
use crate::text::{append_decimal, decimal, push_char, string_from};

verus! {

/// Version of the control protocol.
pub const PROTOCOL_VERSION: u8 = 1;

/// Largest control message accepted, in bytes (16 MiB).
pub const MAX_MESSAGE_SIZE: u32 = 16 * 1024 * 1024;

/// Messages of the control connection.
#[derive(Debug, Clone)]
pub enum ControlMessage {
    /// Client to server: version, credentials and the tunnels asked for.
    ClientHello {
        version: u8,
        token: String,
        totp_code: Option<u32>,
        proxies: Vec<ReverseProxyConfig>,
        /// SHA-256 (lowercase hex) of the JSON text of `proxies`.
        config_hash: String,
    },
    /// Server to client: the answer to a hello.
    ServerHello {
        version: u8,
        status: HandshakeStatus,
        message: String,
        allowed_ports: Vec<u16>,
        session_id: Option<String>,
    },
    /// Server to client heartbeat.
    Ping,
    /// Client to server heartbeat.
    Pong,
}

/// One tunnel a client asks for.
#[derive(Debug, Clone)]
pub struct ReverseProxyConfig {
    pub server_port: u16,
    pub server_host: Option<String>,
    pub local_host: String,
    pub local_port: u16,
}

/// The verdict on a hello.
#[derive(Debug, Clone, Copy, PartialEq, Eq, Structural)]
pub enum HandshakeStatus {
    Accepted,
    VersionMismatch,
    ConfigError,
    PortAllocationFailed,
    InvalidToken,
    TokenExpired,
    AccessDenied,
    InvalidConfigHash,
}

// ---------------------------------------------------------------------------
// Framing of control messages
// ---------------------------------------------------------------------------

/// The four big-endian bytes of a length.
pub open spec fn be32(n: u32) -> Seq<u8> {
    seq![
        ((n >> 24u32) & 0xffu32) as u8,
        ((n >> 16u32) & 0xffu32) as u8,
        ((n >> 8u32) & 0xffu32) as u8,
        (n & 0xffu32) as u8,
    ]
}

/// The length read from four big-endian bytes.
pub open spec fn read_be32(b: Seq<u8>) -> u32 {
    ((b[0] as u32) << 24u32) | ((b[1] as u32) << 16u32) | ((b[2] as u32) << 8u32) | (b[3] as u32)
}

/// The text of the error for an oversized message.
pub open spec fn too_large_text(len: u32) -> Seq<char> {
    "Message too large: "@ + decimal(len as nat) + " bytes"@
}

/// A serialized message with its length in front, as it goes on the wire;
/// the length is taken modulo 2^32 as a `u32`.
pub fn frame_message(data: &[u8]) -> (r: Result<Vec<u8>, ReverseProxyError>)
    ensures
        (data@.len() as u32) <= MAX_MESSAGE_SIZE ==> (r matches Ok(v) && v@ == be32(data@.len() as u32)
            + data@),
        (data@.len() as u32) > MAX_MESSAGE_SIZE ==> (r matches Err(ReverseProxyError::InvalidMessage(m))
            && m@ == too_large_text(data@.len() as u32)),
{
    let len = data.len() as u32;
    if len > MAX_MESSAGE_SIZE {
        let mut m = string_from("Message too large: ");
        append_decimal(&mut m, len as u64);
        crate::text::append_str(&mut m, " bytes");
        return Err(ReverseProxyError::InvalidMessage(m));
    }
    let mut v: Vec<u8> = Vec::new();
    v.push(((len >> 24u32) & 0xffu32) as u8);
    v.push(((len >> 16u32) & 0xffu32) as u8);
    v.push(((len >> 8u32) & 0xffu32) as u8);
    v.push((len & 0xffu32) as u8);
    let ghost head = v@;
    let mut i: usize = 0;
    while i < data.len()
        invariant
            head == be32(len),
            i <= data@.len(),
            v@ == head + data@.take(i as int),
        decreases data@.len() - i,
    {
        v.push(data[i]);
        i = i + 1;
        assert(v@ =~= head + data@.take(i as int));
    }
    assert(data@.take(data@.len() as int) =~= data@);
    Ok(v)
}

/// The length announced by the four bytes in front of a message, refused
/// when it is larger than the protocol allows.
pub fn message_length(header: &[u8]) -> (r: Result<u32, ReverseProxyError>)
    requires
        header@.len() == 4,
    ensures
        read_be32(header@) <= MAX_MESSAGE_SIZE ==> r == Ok::<u32, ReverseProxyError>(read_be32(header@)),
        read_be32(header@) > MAX_MESSAGE_SIZE ==> (r matches Err(ReverseProxyError::InvalidMessage(m))
            && m@ == too_large_text(read_be32(header@))),
{
    let len = ((header[0] as u32) << 24u32) | ((header[1] as u32) << 16u32) | ((header[2] as u32) << 8u32)
        | (header[3] as u32);
    if len > MAX_MESSAGE_SIZE {
        let mut m = string_from("Message too large: ");
        append_decimal(&mut m, len as u64);
        crate::text::append_str(&mut m, " bytes");
        return Err(ReverseProxyError::InvalidMessage(m));
    }
    Ok(len)
}

/// Reading back the length written in front of a message gives the length.
pub proof fn lemma_frame_length_roundtrip(n: u32)
    ensures
        read_be32(be32(n)) == n,
{
    let b = be32(n);
    assert(b[0] == ((n >> 24u32) & 0xffu32) as u8);
    assert(b[1] == ((n >> 16u32) & 0xffu32) as u8);
    assert(b[2] == ((n >> 8u32) & 0xffu32) as u8);
    assert(b[3] == (n & 0xffu32) as u8);
    let (b0, b1, b2, b3) = (b[0], b[1], b[2], b[3]);
    assert(((b0 as u32) << 24u32) | ((b1 as u32) << 16u32) | ((b2 as u32) << 8u32) | (b3 as u32) == n)
        by (bit_vector)
        requires
            b0 == ((n >> 24u32) & 0xffu32) as u8,
            b1 == ((n >> 16u32) & 0xffu32) as u8,
            b2 == ((n >> 8u32) & 0xffu32) as u8,
            b3 == (n & 0xffu32) as u8,
    ;
}

/// A framed message that fits is read back whole: the announced length is
/// accepted and is the length of what follows it.
pub proof fn lemma_frame_roundtrip(data: Seq<u8>, framed: Seq<u8>)
    requires
        data.len() <= MAX_MESSAGE_SIZE,
        framed == be32(data.len() as u32) + data,
    ensures
        read_be32(framed.take(4)) == data.len(),
        read_be32(framed.take(4)) <= MAX_MESSAGE_SIZE,
        framed.skip(4) == data,
{
    lemma_frame_length_roundtrip(data.len() as u32);
    assert(framed.take(4) =~= be32(data.len() as u32));
    assert(framed.skip(4) =~= data);
}

// ---------------------------------------------------------------------------
// Tunnel stream headers
// ---------------------------------------------------------------------------

/// Kind byte of a TCP tunnel stream.
pub const TUNNEL_TCP: u8 = 1;

/// Kind byte of a UDP datagram stream.
pub const TUNNEL_UDP: u8 = 2;

/// Kind byte of a PROXY protocol stream (not supported).
pub const TUNNEL_PROXY: u8 = 3;

/// The header `[kind, 0, port high byte, port low byte]` that opens a tunnel
/// stream.
pub open spec fn tunnel_header_bytes(kind: u8, port: u16) -> Seq<u8> {
    seq![kind, 0u8, (port >> 8u16) as u8, (port & 0xffu16) as u8]
}

/// The port written in bytes 2 and 3 of a header.
pub open spec fn header_port(h: Seq<u8>) -> u16 {
    ((h[2] as u16) << 8u16) | (h[3] as u16)
}

/// The header that opens a tunnel stream for the given kind and port.
pub fn tunnel_header(kind: u8, port: u16) -> (r: [u8; 4])
    ensures
        r@ == tunnel_header_bytes(kind, port),
{
    let r = [kind, 0u8, (port >> 8u16) as u8, (port & 0xffu16) as u8];
    assert(r@ =~= tunnel_header_bytes(kind, port));
    r
}

/// The kind and port of a tunnel stream header.
pub fn parse_tunnel_header(h: &[u8]) -> (r: (u8, u16))
    requires
        h@.len() == 4,
    ensures
        r.0 == h@[0],
        r.1 == header_port(h@),
{
    (h[0], ((h[2] as u16) << 8u16) | (h[3] as u16))
}

/// A header read back gives the kind and port it was written with.
pub proof fn lemma_tunnel_header_roundtrip(kind: u8, port: u16)
    ensures
        tunnel_header_bytes(kind, port)[0] == kind,
        header_port(tunnel_header_bytes(kind, port)) == port,
{
    let h = tunnel_header_bytes(kind, port);
    let (hi, lo) = (h[2], h[3]);
    assert(hi == (port >> 8u16) as u8);
    assert(lo == (port & 0xffu16) as u8);
    assert(((hi as u16) << 8u16) | (lo as u16) == port) by (bit_vector)
        requires
            hi == (port >> 8u16) as u8,
            lo == (port & 0xffu16) as u8,
    ;
}

/// A UDP payload on a tunnel stream: its length (modulo 2^16, big-endian),
/// then the payload.
pub fn udp_frame(payload: &[u8]) -> (r: Vec<u8>)
    ensures
        r@ == seq![((payload@.len() as u16) >> 8u16) as u8, ((payload@.len() as u16) & 0xffu16) as u8]
            + payload@,
{
    let len = payload.len() as u16;
    let mut v: Vec<u8> = Vec::new();
    v.push((len >> 8u16) as u8);
    v.push((len & 0xffu16) as u8);
    let ghost head = v@;
    let mut i: usize = 0;
    while i < payload.len()
        invariant
            head == seq![(len >> 8u16) as u8, (len & 0xffu16) as u8],
            i <= payload@.len(),
            v@ == head + payload@.take(i as int),
        decreases payload@.len() - i,
    {
        v.push(payload[i]);
        i = i + 1;
        assert(v@ =~= head + payload@.take(i as int));
    }
    assert(payload@.take(payload@.len() as int) =~= payload@);
    v
}

/// The payload length announced by two big-endian bytes.
pub fn udp_frame_length(b: &[u8]) -> (r: usize)
    requires
        b@.len() == 2,
    ensures
        r == (((b@[0] as u16) << 8u16) | (b@[1] as u16)),
{
    (((b[0] as u16) << 8u16) | (b[1] as u16)) as usize
}

// ---------------------------------------------------------------------------
// Configuration hash
// ---------------------------------------------------------------------------

/// SHA-256 digest of some bytes.
pub uninterp spec fn sha256(data: Seq<u8>) -> Seq<u8>;

/// `sha2::Sha256::digest`: the 32-byte digest.
#[verifier::external_body]
pub(crate) fn sha256_digest(data: &[u8]) -> (r: Vec<u8>)
    ensures
        r@ == sha256(data@),
        r@.len() == 32,
{
    sha2::Sha256::digest(data).to_vec()
}

/// The lowercase hexadecimal digit of a nibble.
pub open spec fn hex_digit(n: u8) -> char {
    if n < 10 {
        (n + 48) as char
    } else {
        (n + 87) as char
    }
}

/// Lowercase hexadecimal text of some bytes, two digits per byte.
pub open spec fn hex_lower(b: Seq<u8>) -> Seq<char>
    decreases b.len(),
{
    if b.len() == 0 {
        seq![]
    } else {
        hex_lower(b.drop_last()) + seq![hex_digit(b.last() / 16), hex_digit(b.last() % 16)]
    }
}

fn hex_digit_exec(n: u8) -> (c: char)
    requires
        n < 16,
    ensures
        c == hex_digit(n),
{
    if n < 10 {
        ((n + 48) as char)
    } else {
        ((n + 87) as char)
    }
}

/// Lowercase hexadecimal text of some bytes.
pub fn hex_string(b: &[u8]) -> (r: String)
    ensures
        r@ == hex_lower(b@),
{
    let mut r = String::new();
    let mut i: usize = 0;
    while i < b.len()
        invariant
            i <= b@.len(),
            r@ == hex_lower(b@.take(i as int)),
        decreases b@.len() - i,
    {
        assert(b@.take(i + 1).drop_last() =~= b@.take(i as int));
        let x = b[i];
        push_char(&mut r, hex_digit_exec(x / 16));
        push_char(&mut r, hex_digit_exec(x % 16));
        i = i + 1;
        assert(r@ =~= hex_lower(b@.take(i as int)));
    }
    assert(b@.take(b@.len() as int) =~= b@);
    r
}

/// The hash of a tunnel list: SHA-256 of its JSON text, in lowercase hex.
pub open spec fn config_hash(json: Seq<u8>) -> Seq<char> {
    hex_lower(sha256(json))
}

/// The hash of a tunnel list from its JSON text.
pub fn config_hash_of(json: &[u8]) -> (r: String)
    ensures
        r@ == config_hash(json@),
{
    let d = sha256_digest(json);
    hex_string(d.as_slice())
}

} // verus!
