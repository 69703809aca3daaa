use base64::Engine;
use logpipe::security::{SecurityError, SecurityManager};

#[test]
fn test_security_sanitization() {
    let security = SecurityManager::new(b"anexampleverysecurekey123456789012", None).unwrap();
    let sanitized = security.sanitize("User email is user@example.com");
    assert_eq!(sanitized, "User email is [REDACTED]");
}

#[test]
fn test_security_encryption_and_hashing() {
    let security = SecurityManager::new(b"anexampleverysecurekey123456789012", None).unwrap();
    let sanitized = "Test message".to_string();
    let encrypted = security.encrypt(&sanitized).unwrap();
    let hash = security.hash(&encrypted).unwrap();
    let integrity = security.verify_integrity(&encrypted, &hash).unwrap();
    assert!(integrity);
}

#[test]
fn short_key_is_rejected_with_encryption_error() {
    let r = SecurityManager::new(b"way too short", None);
    assert!(matches!(r, Err(SecurityError::EncryptionError(_))));
}

#[test]
fn key_of_exactly_32_bytes_is_accepted() {
    let r = SecurityManager::new(b"0123456789abcdef0123456789abcdef", None);
    assert!(r.is_ok());
}

#[test]
fn invalid_pattern_is_rejected_with_sanitization_error() {
    let r = SecurityManager::new(
        b"0123456789abcdef0123456789abcdef",
        Some(vec!["(".to_string()]),
    );
    assert!(matches!(r, Err(SecurityError::SanitizationError(_))));
}

#[test]
fn sanitize_is_fixed_point_without_matches() {
    let security = SecurityManager::new(b"anexampleverysecurekey123456789012", None).unwrap();
    let once = security.sanitize("no secrets in this line");
    assert_eq!(once, "no secrets in this line");
    let twice = security.sanitize(&once);
    assert_eq!(twice, once);
}

#[test]
fn sanitize_redacts_example_address() {
    let security = SecurityManager::new(b"anexampleverysecurekey123456789012", None).unwrap();
    assert_eq!(security.sanitize("contact: a@b.com"), "contact: [REDACTED]");
}

#[test]
fn custom_patterns_apply_in_order() {
    let security = SecurityManager::new(
        b"0123456789abcdef0123456789abcdef",
        Some(vec!["cat".to_string(), "dog".to_string()]),
    )
    .unwrap();
    assert_eq!(security.sanitize("cat meets dog"), "[REDACTED] meets [REDACTED]");
}

#[test]
fn hash_matches_known_sha256_vectors() {
    let security = SecurityManager::new(b"anexampleverysecurekey123456789012", None).unwrap();
    assert_eq!(
        security.hash("").unwrap(),
        "e3b0c44298fc1c149afbf4c8996fb92427ae41e4649b934ca495991b7852b855"
    );
    assert_eq!(
        security.hash("abc").unwrap(),
        "ba7816bf8f01cfea414140de5dae2223b00361a396177a9cb410ff61f20015ad"
    );
}

#[test]
fn verify_integrity_detects_tampering() {
    let security = SecurityManager::new(b"anexampleverysecurekey123456789012", None).unwrap();
    let blob = security.encrypt("payload").unwrap();
    let hash = security.hash(&blob).unwrap();
    assert!(security.verify_integrity(&blob, &hash).unwrap());
    assert!(!security.verify_integrity("tampered blob", &hash).unwrap());
}

#[test]
fn encrypt_produces_nonced_base64_blob() {
    let security = SecurityManager::new(b"anexampleverysecurekey123456789012", None).unwrap();
    let msg = "a message of at least sixteen bytes";
    let blob1 = security.encrypt(msg).unwrap();
    let blob2 = security.encrypt(msg).unwrap();
    // A fresh nonce per call: identical plaintext never yields identical blobs.
    assert_ne!(blob1, blob2);
    let decoded = base64::engine::general_purpose::STANDARD
        .decode(&blob1)
        .unwrap();
    // Eight nonce bytes followed by one ciphertext byte per plaintext byte.
    assert_eq!(decoded.len(), 8 + msg.len());
    // The first keystream block's counter half is zero, so an identity block
    // cipher would leave these plaintext bytes bare.
    assert_ne!(&decoded[16..24], &msg.as_bytes()[8..16]);
}
