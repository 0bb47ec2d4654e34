//! AES-256-GCM keys for the encrypted tunnel streams: a key is made from
//! random bytes or derived from the shared token and configuration, and
//! seals or opens messages under the nonce of its sequence number.

use ring::rand::SecureRandom;
use vstd::prelude::*;
use crate::error::{AppError, ReverseProxyError};
use crate::protocol::{sha256, sha256_digest};

verus! {

/// Declared so that the sealing and opening wrappers can hand back ring's
/// error value.
#[verifier::external_type_specification]
#[verifier::external_body]
pub struct ExRingUnspecified(ring::error::Unspecified);

/// Length of an AES-256 key in bytes.
pub const KEY_LEN: usize = 32;

/// Length of a GCM authentication tag in bytes.
pub const TAG_LEN: usize = 16;

/// Longest input that AES-GCM seals under one nonce: (2^32 - 2) blocks of
/// 16 bytes.
pub open spec fn gcm_max_input_len() -> int {
    68719476704
}

/// What AES-256-GCM makes of a message: the ciphertext followed by the tag.
pub uninterp spec fn aes_256_gcm_sealed(key: Seq<u8>, nonce: Seq<u8>, aad: Seq<u8>, data: Seq<u8>) -> Seq<u8>;

/// What AES-256-GCM gives back of sealed bytes: the plaintext, or nothing
/// when the tag does not authenticate them.
pub uninterp spec fn aes_256_gcm_opened(key: Seq<u8>, nonce: Seq<u8>, aad: Seq<u8>, sealed: Seq<u8>) -> Option<
    Seq<u8>,
>;

/// `ring::aead::LessSafeKey::seal_in_place_append_tag` with an AES-256-GCM
/// key built from `key`: the buffer holding `data` is encrypted in place
/// and the 16-byte tag appended. ring refuses only an input longer than
/// `gcm_max_input_len()`; the key and nonce lengths are fixed by `requires`.
#[verifier::external_body]
fn aes_256_gcm_seal(key: &[u8], nonce: &[u8], aad: &[u8], data: &[u8]) -> (r: Result<
    Vec<u8>,
    ring::error::Unspecified,
>)
    requires
        key@.len() == 32,
        nonce@.len() == 12,
    ensures
        r is Ok <==> data@.len() <= gcm_max_input_len(),
        r is Ok ==> r->Ok_0@ == aes_256_gcm_sealed(key@, nonce@, aad@, data@),
        r is Ok ==> r->Ok_0@.len() == data@.len() + 16,
{
    let unbound = ring::aead::UnboundKey::new(&ring::aead::AES_256_GCM, key).expect("32-byte key");
    let sealing = ring::aead::LessSafeKey::new(unbound);
    let n = ring::aead::Nonce::try_assume_unique_for_key(nonce).expect("12-byte nonce");
    let mut buf = data.to_vec();
    sealing.seal_in_place_append_tag(n, ring::aead::Aad::from(aad), &mut buf).map(|_| buf)
}

/// `ring::aead::LessSafeKey::open_in_place` with an AES-256-GCM key built
/// from `key`: the plaintext when the tag at the end of `sealed`
/// authenticates it. What was sealed under the same key, nonce and
/// associated data opens to the message sealed.
#[verifier::external_body]
fn aes_256_gcm_open(key: &[u8], nonce: &[u8], aad: &[u8], sealed: &[u8]) -> (r: Result<
    Vec<u8>,
    ring::error::Unspecified,
>)
    requires
        key@.len() == 32,
        nonce@.len() == 12,
    ensures
        r is Ok <==> aes_256_gcm_opened(key@, nonce@, aad@, sealed@) is Some,
        r is Ok ==> aes_256_gcm_opened(key@, nonce@, aad@, sealed@) == Some(r->Ok_0@),
        r is Ok ==> r->Ok_0@.len() + 16 == sealed@.len(),
        forall|m: Seq<u8>|
            m.len() <= gcm_max_input_len() && sealed@ == #[trigger] aes_256_gcm_sealed(key@, nonce@, aad@, m)
                ==> (r is Ok && r->Ok_0@ == m),
{
    let unbound = ring::aead::UnboundKey::new(&ring::aead::AES_256_GCM, key).expect("32-byte key");
    let opening = ring::aead::LessSafeKey::new(unbound);
    let n = ring::aead::Nonce::try_assume_unique_for_key(nonce).expect("12-byte nonce");
    let mut buf = sealed.to_vec();
    opening.open_in_place(n, ring::aead::Aad::from(aad), &mut buf).map(|p| p.to_vec())
}

/// The text of ring's error (`Display` of `ring::error::Unspecified`).
#[verifier::external_body]
fn ring_error_text(e: &ring::error::Unspecified) -> (r: String)
    ensures
        r@ == "ring::error::Unspecified"@,
{
    e.to_string()
}

/// `ring::rand::SystemRandom::fill` on a 32-byte buffer: bytes from the
/// operating system's generator. The generator failing is a panic, as when
/// the buffer is filled with `unwrap`. Nothing is claimed of the bytes.
#[verifier::external_body]
fn system_random_key() -> (r: Vec<u8>)
    ensures
        r@.len() == 32,
{
    let mut key_bytes = [0u8; 32];
    ring::rand::SystemRandom::new().fill(&mut key_bytes).unwrap();
    key_bytes.to_vec()
}

/// The eight little-endian bytes of a number.
pub open spec fn le64(n: u64) -> Seq<u8> {
    Seq::new(8, |i: int| ((n >> (8 * i) as u64) & 0xffu64) as u8)
}

/// The nonce of a key's sequence number: four zero bytes, then the number
/// in little-endian order.
pub open spec fn sequence_nonce(sequence: u64) -> Seq<u8> {
    seq![0u8, 0u8, 0u8, 0u8] + le64(sequence)
}

/// The error every failed seal or open is reported as.
pub open spec fn crypto_failure(e: AppError) -> bool {
    e matches AppError::ReverseProxy(ReverseProxyError::CryptoError(m)) && m@ == "ring::error::Unspecified"@
}

/// The eight little-endian bytes of a number.
pub fn le64_bytes(n: u64) -> (r: Vec<u8>)
    ensures
        r@ == le64(n),
{
    let mut r: Vec<u8> = Vec::new();
    let mut i: u64 = 0;
    while i < 8
        invariant
            i <= 8,
            r@.len() == i,
            forall|j: int| 0 <= j < i ==> r@[j] == ((n >> (8 * j) as u64) & 0xffu64) as u8,
        decreases 8 - i,
    {
        r.push(((n >> (8 * i)) & 0xffu64) as u8);
        i = i + 1;
    }
    assert(r@ =~= le64(n));
    r
}

/// Appends the bytes of `tail` to `v`.
pub fn extend_bytes(v: &mut Vec<u8>, tail: &[u8])
    ensures
        final(v)@ == old(v)@ + tail@,
{
    let ghost head = v@;
    let mut i: usize = 0;
    while i < tail.len()
        invariant
            i <= tail@.len(),
            v@ == head + tail@.take(i as int),
        decreases tail@.len() - i,
    {
        v.push(tail[i]);
        i = i + 1;
        assert(v@ =~= head + tail@.take(i as int));
    }
    assert(tail@.take(tail@.len() as int) =~= tail@);
}

/// An AES-256-GCM key and the sequence number its nonce is made from.
#[derive(Debug)]
pub struct EncryptionKey {
    key: Vec<u8>,
    nonce_sequence: u64,
}

impl Clone for EncryptionKey {
    fn clone(&self) -> (r: Self)
        ensures
            r.key_bytes() == self.key_bytes(),
            r.sequence() == self.sequence(),
    {
        proof {
            use_type_invariant(self);
        }
        let key = self.key.clone();
        assert(key@ =~= self.key@);
        EncryptionKey { key, nonce_sequence: self.nonce_sequence }
    }
}

impl EncryptionKey {
    #[verifier::type_invariant]
    spec fn well_formed(self) -> bool {
        self.key@.len() == 32
    }

    /// The 32 key bytes.
    pub closed spec fn key_bytes(self) -> Seq<u8> {
        self.key@
    }

    /// The sequence number of the nonce.
    pub closed spec fn sequence(self) -> u64 {
        self.nonce_sequence
    }

    /// A fresh key from the system's random generator, at sequence 0.
    pub fn generate() -> (k: Self)
        ensures
            k.key_bytes().len() == 32,
            k.sequence() == 0,
    {
        let key = system_random_key();
        EncryptionKey { key, nonce_sequence: 0 }
    }

    /// The key derived from the shared token and configuration: the SHA-256
    /// digest of the token followed by the configuration, at sequence 0.
    pub fn from_shared_secret(token: &[u8], config: &[u8]) -> (k: Self)
        requires
            token@.len() + config@.len() <= usize::MAX,
        ensures
            k.key_bytes() == sha256(token@ + config@),
            k.sequence() == 0,
    {
        let mut material: Vec<u8> = Vec::new();
        extend_bytes(&mut material, token);
        extend_bytes(&mut material, config);
        let key = sha256_digest(material.as_slice());
        EncryptionKey { key, nonce_sequence: 0 }
    }

    /// The 12-byte nonce of the key's sequence number.
    fn generate_nonce(&self) -> (r: Vec<u8>)
        ensures
            r@ == sequence_nonce(self.sequence()),
            r@.len() == 12,
    {
        let mut r: Vec<u8> = Vec::new();
        r.push(0u8);
        r.push(0u8);
        r.push(0u8);
        r.push(0u8);
        let tail = le64_bytes(self.nonce_sequence);
        extend_bytes(&mut r, tail.as_slice());
        assert(r@ =~= sequence_nonce(self.sequence()));
        r
    }

    /// Seals `plaintext` under the key's nonce with AES-256-GCM: the
    /// ciphertext, then the 16-byte tag.
    pub fn encrypt(&self, plaintext: &[u8], associated_data: &[u8]) -> (r: Result<Vec<u8>, AppError>)
        ensures
            plaintext@.len() <= gcm_max_input_len() ==> (r is Ok && r->Ok_0@ == aes_256_gcm_sealed(
                self.key_bytes(),
                sequence_nonce(self.sequence()),
                associated_data@,
                plaintext@,
            )),
            plaintext@.len() > gcm_max_input_len() ==> (r is Err && crypto_failure(r->Err_0)),
            r is Ok ==> r->Ok_0@.len() == plaintext@.len() + 16,
    {
        proof {
            use_type_invariant(self);
        }
        let nonce = self.generate_nonce();
        match aes_256_gcm_seal(self.key.as_slice(), nonce.as_slice(), associated_data, plaintext) {
            Ok(sealed) => Ok(sealed),
            Err(e) => Err(AppError::ReverseProxy(ReverseProxyError::CryptoError(ring_error_text(&e)))),
        }
    }

    /// Opens `ciphertext` under the key's nonce. What `encrypt` made with the
    /// same key and associated data opens to the plaintext it sealed.
    pub fn decrypt(&self, ciphertext: &[u8], associated_data: &[u8]) -> (r: Result<Vec<u8>, AppError>)
        ensures
            r is Ok <==> aes_256_gcm_opened(
                self.key_bytes(),
                sequence_nonce(self.sequence()),
                associated_data@,
                ciphertext@,
            ) is Some,
            r is Ok ==> aes_256_gcm_opened(
                self.key_bytes(),
                sequence_nonce(self.sequence()),
                associated_data@,
                ciphertext@,
            ) == Some(r->Ok_0@),
            r is Err ==> crypto_failure(r->Err_0),
            forall|m: Seq<u8>|
                m.len() <= gcm_max_input_len() && ciphertext@ == #[trigger] aes_256_gcm_sealed(
                    self.key_bytes(),
                    sequence_nonce(self.sequence()),
                    associated_data@,
                    m,
                ) ==> (r is Ok && r->Ok_0@ == m),
    {
        proof {
            use_type_invariant(self);
        }
        let nonce = self.generate_nonce();
        match aes_256_gcm_open(self.key.as_slice(), nonce.as_slice(), associated_data, ciphertext) {
            Ok(plain) => Ok(plain),
            Err(e) => Err(AppError::ReverseProxy(ReverseProxyError::CryptoError(ring_error_text(&e)))),
        }
    }
}

} // verus!
