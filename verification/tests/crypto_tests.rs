use gsc_fq::crypto::{le64_bytes, EncryptionKey};
use gsc_fq::error::{AppError, ReverseProxyError};
use gsc_fq::stream_cipher::{control_payload, encode_message, frame_length, StreamCipher};

fn crypto_text(e: &AppError) -> String {
    match e {
        AppError::ReverseProxy(ReverseProxyError::CryptoError(m)) => m.clone(),
        _ => panic!("expected a cryptography error"),
    }
}

#[test]
fn shared_secret_keys_decrypt_what_they_encrypt() {
    let sender = EncryptionKey::from_shared_secret(b"token", b"config");
    let receiver = EncryptionKey::from_shared_secret(b"token", b"config");
    let sealed = sender.encrypt(b"hello", b"ad").unwrap();
    // five bytes of ciphertext, sixteen bytes of tag
    assert_eq!(sealed.len(), 5 + 16);
    assert_ne!(&sealed[..5], b"hello");
    assert_eq!(receiver.decrypt(&sealed, b"ad").unwrap(), b"hello".to_vec());
    let empty = sender.encrypt(b"", b"").unwrap();
    assert_eq!(empty.len(), 16);
    assert_eq!(receiver.decrypt(&empty, b"").unwrap(), Vec::<u8>::new());
}

#[test]
fn key_derivation_hashes_token_then_config() {
    let a = EncryptionKey::from_shared_secret(b"tok", b"en");
    let b = EncryptionKey::from_shared_secret(b"to", b"ken");
    let sealed = a.encrypt(b"x", b"").unwrap();
    assert!(b.decrypt(&sealed, b"").is_ok());
    let c = EncryptionKey::from_shared_secret(b"ken", b"to");
    let err = c.decrypt(&sealed, b"").unwrap_err();
    assert_eq!(crypto_text(&err), "ring::error::Unspecified");
}

#[test]
fn tampering_and_wrong_associated_data_are_refused() {
    let key = EncryptionKey::from_shared_secret(b"token", b"config");
    let mut sealed = key.encrypt(b"payload", b"ad").unwrap();
    assert!(key.decrypt(&sealed, b"other").is_err());
    sealed[0] ^= 1;
    let err = key.decrypt(&sealed, b"ad").unwrap_err();
    assert_eq!(err.message(), "Reverse proxy error: Cryptography error: ring::error::Unspecified");
    assert!(key.decrypt(&[1, 2, 3], b"ad").is_err());
}

#[test]
fn generated_keys_are_independent() {
    let a = EncryptionKey::generate();
    let b = EncryptionKey::generate();
    let sealed = a.encrypt(b"secret", b"").unwrap();
    assert!(a.clone().decrypt(&sealed, b"").is_ok());
    assert!(b.decrypt(&sealed, b"").is_err());
}

#[test]
fn little_endian_counter_bytes() {
    assert_eq!(le64_bytes(0x0102030405060708), vec![8, 7, 6, 5, 4, 3, 2, 1]);
}

#[test]
fn wire_messages_carry_both_lengths() {
    let wire = encode_message(&[1, 2], &[9, 8, 7]);
    assert_eq!(wire, vec![0, 0, 0, 2, 1, 2, 0, 0, 0, 3, 9, 8, 7]);
    assert_eq!(frame_length(&wire[..4]), 2);
    assert_eq!(frame_length(&wire[6..10]), 3);
    assert_eq!(frame_length(&[0, 1, 0, 0]), 65536);
    assert_eq!(control_payload(7, b"abc"), vec![7, b'a', b'b', b'c']);
}

#[test]
fn stream_messages_reach_the_peer() {
    let mut sender = StreamCipher::new(EncryptionKey::from_shared_secret(b"t", b"c"));
    let mut receiver = StreamCipher::new(EncryptionKey::from_shared_secret(b"t", b"c"));
    assert!(receiver.needs_message());

    let wire = sender.seal_message(b"data").unwrap();
    let nonce_len = frame_length(&wire[..4]);
    assert_eq!(nonce_len, 12);
    let nonce = wire[4..4 + nonce_len].to_vec();
    assert_eq!(&nonce[..8], &[0u8; 8]);
    let sealed_len = frame_length(&wire[4 + nonce_len..8 + nonce_len]);
    let sealed = wire[8 + nonce_len..].to_vec();
    assert_eq!(sealed_len, sealed.len());
    assert_eq!(sealed.len(), 4 + 16);

    receiver.accept_message(&nonce, &sealed).unwrap();
    assert!(!receiver.needs_message());
    assert_eq!(receiver.take_unread(3), b"dat".to_vec());
    let rest = receiver.take_unread(100);
    assert_eq!(rest, b"a".to_vec());
    assert!(receiver.needs_message());
    assert_eq!(receiver.take_unread(10), Vec::<u8>::new());
}

#[test]
fn stream_counter_enters_the_associated_data() {
    let mut sender = StreamCipher::new(EncryptionKey::from_shared_secret(b"t", b"c"));
    let mut receiver = StreamCipher::new(EncryptionKey::from_shared_secret(b"t", b"c"));
    sender.record_sent();
    assert_eq!(sender.message_counter(), 1);
    assert_eq!(sender.create_associated_data(&[5]), vec![1, 0, 0, 0, 0, 0, 0, 0, 5]);
    let wire = sender.seal_message(b"late").unwrap();
    assert_eq!(&wire[4..12], &[1, 0, 0, 0, 0, 0, 0, 0]);
    let nonce = wire[4..16].to_vec();
    let sealed = wire[20..].to_vec();
    let err = receiver.accept_message(&nonce, &sealed).unwrap_err();
    assert_eq!(crypto_text(&err), "Reverse proxy error: Cryptography error: ring::error::Unspecified");
    assert!(receiver.needs_message());
    receiver.record_sent();
    receiver.accept_message(&nonce, &sealed).unwrap();
    assert_eq!(&receiver.take_unread(4), b"late");
}

#[test]
fn fixed_nonces_give_fixed_messages() {
    let stream = StreamCipher::new(EncryptionKey::from_shared_secret(b"t", b"c"));
    let nonce = [3u8; 12];
    let a = stream.seal_with_nonce(b"same", &nonce).unwrap();
    let b = stream.seal_with_nonce(b"same", &nonce).unwrap();
    assert_eq!(a, b);
    assert_eq!(&a[..16], &[0, 0, 0, 12, 3, 3, 3, 3, 3, 3, 3, 3, 3, 3, 3, 3]);
    let n1 = stream.generate_nonce();
    assert_eq!(n1.len(), 12);
    assert_eq!(&n1[..8], &[0u8; 8]);
}
