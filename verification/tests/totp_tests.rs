use data_encoding::BASE32;
use gsc_fq::totp::Totp;

#[test]
fn test_totp_generation_and_verification() {
    let secret = b"12345678901234567890".to_vec();
    let totp = Totp::new(secret);
    let code = totp.generate_current();
    assert!(totp.verify(code));
    assert!(!totp.verify(999999));
}

#[test]
fn test_rfc_6238_vectors() {
    let secret = b"12345678901234567890".to_vec();
    let totp = Totp::with_digits(secret.clone(), 8);
    assert_eq!(totp.generate(59), 94287082, "RFC 6238: T=59 should produce 94287082 (8-digit SHA1)");
    assert_eq!(totp.generate(1111111109), 7081804, "RFC 6238: T=1111111109 should produce 07081804 (8-digit SHA1)");
    assert_eq!(totp.generate(1111111111), 14050471, "RFC 6238: T=1111111111 should produce 14050471 (8-digit SHA1)");
    assert_eq!(totp.generate(1234567890), 89005924, "RFC 6238: T=1234567890 should produce 89005924 (8-digit SHA1)");
    let totp_6 = Totp::with_digits(secret, 6);
    assert_eq!(totp_6.generate(59), 287082, "6-digit mode: T=59 should produce 287082 (last 6 digits of 94287082)");
}

#[test]
fn test_base32_and_uri() {
    let hello = b"Hello!";
    let b32_secret = BASE32.encode(hello);
    let totp = Totp::from_base32(&b32_secret).unwrap();
    assert_eq!(totp.secret().as_slice(), hello);
    let uri = totp.generate_otpauth_uri("test@example.com", "GSC-FQ");
    assert!(uri.contains(&format!("secret={}", b32_secret)));
    assert!(uri.contains("issuer=GSC-FQ"));
}

#[test]
fn otpauth_uri_is_exact() {
    let totp = Totp::new(b"Hello!".to_vec());
    assert_eq!(
        totp.generate_otpauth_uri("me", "GSC-FQ"),
        "otpauth://totp/me?secret=JBSWY3DPEE======&issuer=GSC-FQ&digits=6&period=30"
    );
}

#[test]
fn base32_secret_tolerates_spaces_case_and_missing_padding() {
    let totp = Totp::from_base32("jbsw y3dp ee").unwrap();
    assert_eq!(totp.secret().as_slice(), b"Hello!");
    assert_eq!(totp.digits(), 6);
    match Totp::from_base32("1!") {
        Err(m) => assert!(m.starts_with("Invalid Base32 secret: ")),
        Ok(_) => panic!("expected an error"),
    }
}

#[test]
fn codes_verify_within_one_step_of_drift() {
    let totp = Totp::new(b"12345678901234567890".to_vec());
    let now = 1_000_000_000u64;
    let code = totp.generate(now);
    assert!(totp.verify_at(code, now));
    assert!(totp.verify_at(code, now + 30));
    assert!(totp.verify_at(code, now - 30));
    assert!(totp.verify_at(totp.generate(now + 30), now));
    assert_eq!(totp.generate(59), totp.generate(31));
    assert!(totp.generate(now) < 1_000_000);
}

#[test]
fn random_secret_round_trips_through_base32() {
    let (totp, b32) = Totp::generate_random();
    assert_eq!(totp.secret().len(), 10);
    assert_eq!(b32, BASE32.encode(totp.secret()));
    let again = Totp::from_base32(&b32).unwrap();
    assert_eq!(again.secret(), totp.secret());
}

#[test]
fn qr_code_renders_for_short_uris() {
    let totp = Totp::new(b"Hello!".to_vec());
    let uri = totp.generate_otpauth_uri("me", "GSC-FQ");
    let drawing = totp.try_render_qr_code(&uri).expect("fits");
    assert!(!drawing.is_empty());
    assert_eq!(drawing, totp.render_qr_code(&uri));
    let too_long = "x".repeat(10_000);
    assert!(totp.try_render_qr_code(&too_long).is_none());
}
