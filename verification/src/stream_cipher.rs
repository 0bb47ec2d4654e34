//! The state of an encrypted stream apart from its transport: how an
//! outgoing message is sealed and framed, how an incoming one is opened
//! into the read buffer, and how the buffer is handed out.
//!
//! A message on the wire is the nonce's length (four bytes, big-endian),
//! the nonce, the sealed data's length (four bytes, big-endian) and the
//! sealed data. Its associated data is the stream's message counter (eight
//! bytes, little-endian) followed by the nonce.

use rand::RngCore;
use vstd::prelude::*;
use crate::crypto::{
    aes_256_gcm_opened, aes_256_gcm_sealed, extend_bytes, gcm_max_input_len, le64, le64_bytes,
    sequence_nonce, EncryptionKey,
};
use crate::error::{AppError, ReverseProxyError};
use crate::protocol::{be32, read_be32};

verus! {

/// Four bytes from the thread's random generator (`rand::rng().fill_bytes`).
/// Nothing is claimed of their values.
#[verifier::external_body]
fn random_nonce_tail() -> (r: Vec<u8>)
    ensures
        r@.len() == 4,
{
    let mut tail = [0u8; 4];
    rand::rng().fill_bytes(&mut tail);
    tail.to_vec()
}

/// The bytes of one message on the wire; each length is taken modulo 2^32.
pub open spec fn wire_message(nonce: Seq<u8>, sealed: Seq<u8>) -> Seq<u8> {
    be32(nonce.len() as u32) + nonce + be32(sealed.len() as u32) + sealed
}

/// The associated data of a message: the counter, then the nonce.
pub open spec fn message_aad(counter: u64, nonce: Seq<u8>) -> Seq<u8> {
    le64(counter) + nonce
}

/// The error a failed seal or open of a stream message is reported as: the
/// text of the key's error inside a cryptography error.
pub open spec fn stream_crypto_failure(e: AppError) -> bool {
    e matches AppError::ReverseProxy(ReverseProxyError::CryptoError(m)) && m@ == "Reverse proxy error: "@ + (
    "Cryptography error: "@ + "ring::error::Unspecified"@)
}

/// The four big-endian bytes of a length.
fn push_be32(v: &mut Vec<u8>, n: u32)
    ensures
        final(v)@ == old(v)@ + be32(n),
{
    v.push(((n >> 24u32) & 0xffu32) as u8);
    v.push(((n >> 16u32) & 0xffu32) as u8);
    v.push(((n >> 8u32) & 0xffu32) as u8);
    v.push((n & 0xffu32) as u8);
    assert(final(v)@ =~= old(v)@ + be32(n)) by {
        assert(v@.len() == old(v)@.len() + 4);
    }
}

/// The bytes of one message on the wire.
pub fn encode_message(nonce: &[u8], sealed: &[u8]) -> (r: Vec<u8>)
    requires
        nonce@.len() + sealed@.len() + 8 <= usize::MAX,
    ensures
        r@ == wire_message(nonce@, sealed@),
{
    let mut v: Vec<u8> = Vec::new();
    push_be32(&mut v, nonce.len() as u32);
    extend_bytes(&mut v, nonce);
    push_be32(&mut v, sealed.len() as u32);
    extend_bytes(&mut v, sealed);
    v
}

/// The length announced by four big-endian bytes.
pub fn frame_length(header: &[u8]) -> (r: usize)
    requires
        header@.len() == 4,
    ensures
        r == read_be32(header@),
{
    (((header[0] as u32) << 24u32) | ((header[1] as u32) << 16u32) | ((header[2] as u32) << 8u32)
        | (header[3] as u32)) as usize
}

/// The payload of a control message: its type byte, then the payload.
pub fn control_payload(message_type: u8, payload: &[u8]) -> (r: Vec<u8>)
    requires
        payload@.len() + 1 <= usize::MAX,
    ensures
        r@ == seq![message_type] + payload@,
{
    let mut data: Vec<u8> = Vec::new();
    data.push(message_type);
    extend_bytes(&mut data, payload);
    data
}

/// A message written with lengths that fit in 32 bits is read back field
/// by field: the nonce's length, the nonce, the sealed data's length and
/// the sealed data.
pub proof fn lemma_wire_message_roundtrip(nonce: Seq<u8>, sealed: Seq<u8>)
    requires
        nonce.len() <= u32::MAX,
        sealed.len() <= u32::MAX,
    ensures
        ({
            let w = wire_message(nonce, sealed);
            let n = nonce.len() as int;
            &&& read_be32(w.take(4)) == nonce.len()
            &&& w.subrange(4, 4 + n) == nonce
            &&& read_be32(w.subrange(4 + n, 8 + n)) == sealed.len()
            &&& w.skip(8 + n) == sealed
        }),
{
    let w = wire_message(nonce, sealed);
    let n = nonce.len() as int;
    crate::protocol::lemma_frame_length_roundtrip(nonce.len() as u32);
    crate::protocol::lemma_frame_length_roundtrip(sealed.len() as u32);
    assert(w.take(4) =~= be32(nonce.len() as u32));
    assert(w.subrange(4, 4 + n) =~= nonce);
    assert(w.subrange(4 + n, 8 + n) =~= be32(sealed.len() as u32));
    assert(w.skip(8 + n) =~= sealed);
}

/// An encrypted stream's key, message counter and read buffer.
#[derive(Debug)]
pub struct StreamCipher {
    encryption_key: EncryptionKey,
    read_buffer: Vec<u8>,
    read_pos: usize,
    message_counter: u64,
}

impl StreamCipher {
    #[verifier::type_invariant]
    spec fn well_formed(self) -> bool {
        self.read_pos <= self.read_buffer@.len()
    }

    /// The key messages are sealed and opened with.
    pub closed spec fn key(self) -> EncryptionKey {
        self.encryption_key
    }

    /// Number of messages sent.
    pub closed spec fn counter(self) -> u64 {
        self.message_counter
    }

    /// The decrypted bytes not yet handed out.
    pub closed spec fn unread(self) -> Seq<u8> {
        self.read_buffer@.subrange(self.read_pos as int, self.read_buffer@.len() as int)
    }

    /// A stream state with an empty read buffer and no message sent.
    pub fn new(encryption_key: EncryptionKey) -> (s: Self)
        ensures
            s.key() == encryption_key,
            s.counter() == 0,
            s.unread() == Seq::<u8>::empty(),
    {
        let s = StreamCipher {
            encryption_key,
            read_buffer: Vec::new(),
            read_pos: 0,
            message_counter: 0,
        };
        assert(s.unread() =~= Seq::<u8>::empty());
        s
    }

    /// Number of messages sent.
    pub fn message_counter(&self) -> (r: u64)
        ensures
            r == self.counter(),
    {
        self.message_counter
    }

    /// The associated data of a message with this nonce.
    pub fn create_associated_data(&self, nonce: &[u8]) -> (r: Vec<u8>)
        requires
            nonce@.len() + 8 <= usize::MAX,
        ensures
            r@ == message_aad(self.counter(), nonce@),
    {
        let mut ad = le64_bytes(self.message_counter);
        extend_bytes(&mut ad, nonce);
        ad
    }

    /// A fresh nonce: the counter in eight little-endian bytes, then four
    /// random bytes.
    pub fn generate_nonce(&self) -> (r: Vec<u8>)
        ensures
            r@.len() == 12,
            r@.take(8) == le64(self.counter()),
    {
        let mut nonce = le64_bytes(self.message_counter);
        let tail = random_nonce_tail();
        extend_bytes(&mut nonce, tail.as_slice());
        assert(nonce@.take(8) =~= le64(self.counter()));
        nonce
    }

    /// Seals `data` with the given nonce and frames it for the wire. The
    /// sealed part is what the key's `encrypt` makes of `data` under the
    /// message's associated data; when the key refuses, its error is
    /// wrapped once more.
    pub fn seal_with_nonce(&self, data: &[u8], nonce: &[u8]) -> (r: Result<Vec<u8>, AppError>)
        requires
            nonce@.len() == 12,
            data@.len() + 64 <= usize::MAX,
        ensures
            data@.len() <= gcm_max_input_len() ==> (r is Ok && r->Ok_0@ == wire_message(
                nonce@,
                aes_256_gcm_sealed(
                    self.key().key_bytes(),
                    sequence_nonce(self.key().sequence()),
                    message_aad(self.counter(), nonce@),
                    data@,
                ),
            )),
            data@.len() > gcm_max_input_len() ==> (r is Err && stream_crypto_failure(r->Err_0)),
    {
        let ad = self.create_associated_data(nonce);
        match self.encryption_key.encrypt(data, ad.as_slice()) {
            Ok(sealed) => Ok(encode_message(nonce, sealed.as_slice())),
            Err(e) => Err(AppError::ReverseProxy(ReverseProxyError::CryptoError(e.message()))),
        }
    }

    /// Seals `data` under a fresh nonce and frames it for the wire.
    pub fn seal_message(&self, data: &[u8]) -> (r: Result<Vec<u8>, AppError>)
        requires
            data@.len() + 64 <= usize::MAX,
        ensures
            data@.len() <= gcm_max_input_len() ==> (r is Ok && exists|nonce: Seq<u8>|
                #![trigger wire_message(nonce, data@)]
                nonce.len() == 12 && nonce.take(8) == le64(self.counter()) && r->Ok_0@ == wire_message(
                    nonce,
                    aes_256_gcm_sealed(
                        self.key().key_bytes(),
                        sequence_nonce(self.key().sequence()),
                        message_aad(self.counter(), nonce),
                        data@,
                    ),
                )),
            data@.len() > gcm_max_input_len() ==> (r is Err && stream_crypto_failure(r->Err_0)),
    {
        let nonce = self.generate_nonce();
        let r = self.seal_with_nonce(data, nonce.as_slice());
        proof {
            if data@.len() <= gcm_max_input_len() {
                assert(wire_message(nonce@, data@) == wire_message(nonce@, data@));
            }
        }
        r
    }

    /// Counts a message as sent, once its bytes have been written.
    pub fn record_sent(&mut self)
        requires
            old(self).counter() < u64::MAX,
        ensures
            final(self).counter() == old(self).counter() + 1,
            final(self).key() == old(self).key(),
            final(self).unread() == old(self).unread(),
    {
        proof {
            use_type_invariant(&*self);
        }
        self.message_counter = self.message_counter + 1;
    }

    /// Whether the read buffer is used up, so that a message must be read
    /// before anything can be handed out.
    pub fn needs_message(&self) -> (r: bool)
        ensures
            r <==> self.unread().len() == 0,
    {
        proof {
            use_type_invariant(self);
        }
        self.read_pos >= self.read_buffer.len()
    }

    /// Opens a received message into the read buffer, which it replaces.
    /// A message sealed under this key, with the associated data of this
    /// stream's counter and the message's nonce, opens to what was sealed.
    /// When it does not open, the state is unchanged.
    pub fn accept_message(&mut self, nonce: &[u8], sealed: &[u8]) -> (r: Result<(), AppError>)
        requires
            nonce@.len() + 8 <= usize::MAX,
        ensures
            final(self).key() == old(self).key(),
            final(self).counter() == old(self).counter(),
            ({
                let opened = aes_256_gcm_opened(
                    old(self).key().key_bytes(),
                    sequence_nonce(old(self).key().sequence()),
                    message_aad(old(self).counter(), nonce@),
                    sealed@,
                );
                &&& r is Ok <==> opened is Some
                &&& r is Ok ==> Some(final(self).unread()) == opened
                &&& r is Err ==> (final(self).unread() == old(self).unread() && stream_crypto_failure(
                    r->Err_0,
                ))
            }),
            forall|m: Seq<u8>|
                m.len() <= gcm_max_input_len() && sealed@ == #[trigger] aes_256_gcm_sealed(
                    old(self).key().key_bytes(),
                    sequence_nonce(old(self).key().sequence()),
                    message_aad(old(self).counter(), nonce@),
                    m,
                ) ==> (r is Ok && final(self).unread() == m),
    {
        proof {
            use_type_invariant(&*self);
        }
        let ad = self.create_associated_data(nonce);
        match self.encryption_key.decrypt(sealed, ad.as_slice()) {
            Ok(plain) => {
                self.read_pos = 0;
                self.read_buffer = plain;
                assert(self.unread() =~= self.read_buffer@);
                Ok(())
            },
            Err(e) => Err(AppError::ReverseProxy(ReverseProxyError::CryptoError(e.message()))),
        }
    }

    /// Hands out up to `max` unread bytes, in order.
    pub fn take_unread(&mut self, max: usize) -> (r: Vec<u8>)
        ensures
            r@.len() == if old(self).unread().len() < max {
                old(self).unread().len()
            } else {
                max as nat
            },
            r@ == old(self).unread().take(r@.len() as int),
            final(self).unread() == old(self).unread().skip(r@.len() as int),
            final(self).key() == old(self).key(),
            final(self).counter() == old(self).counter(),
    {
        proof {
            use_type_invariant(&*self);
        }
        let available = self.read_buffer.len() - self.read_pos;
        let to_copy = if available < max {
            available
        } else {
            max
        };
        let mut out: Vec<u8> = Vec::new();
        let mut i: usize = 0;
        while i < to_copy
            invariant
                i <= to_copy,
                to_copy <= available,
                available == self.read_buffer@.len() - self.read_pos,
                self.read_pos <= self.read_buffer@.len(),
                self.read_buffer@.len() <= usize::MAX,
                out@ == self.read_buffer@.subrange(self.read_pos as int, self.read_pos + i),
            decreases to_copy - i,
        {
            out.push(self.read_buffer[self.read_pos + i]);
            i = i + 1;
            assert(out@ =~= self.read_buffer@.subrange(self.read_pos as int, self.read_pos + i));
        }
        let ghost before = self.unread();
        self.read_pos = self.read_pos + to_copy;
        assert(out@ =~= before.take(to_copy as int));
        assert(self.unread() =~= before.skip(to_copy as int));
        out
    }
}

} // verus!
