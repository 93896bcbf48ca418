use ed25519_dalek::{Signer, SigningKey};
use outcome_manager::verify_signature;

fn signing_key() -> SigningKey {
    SigningKey::from_bytes(&[7u8; 32])
}

#[test]
fn test_ed25519_verification() {
    let secret = signing_key();
    let public = secret.verifying_key().to_bytes();
    let msg = b"test-message";
    let sig = secret.sign(msg).to_bytes();
    assert!(verify_signature(&public, &sig, msg));
}

#[test]
fn rejects_a_signature_over_another_message() {
    let secret = signing_key();
    let public = secret.verifying_key().to_bytes();
    let sig = secret.sign(b"test-message").to_bytes();
    assert!(!verify_signature(&public, &sig, b"test-massage"));
}

#[test]
fn rejects_a_tampered_signature() {
    let secret = signing_key();
    let public = secret.verifying_key().to_bytes();
    let mut sig = secret.sign(b"test-message").to_bytes();
    sig[10] ^= 0x01;
    assert!(!verify_signature(&public, &sig, b"test-message"));
}

#[test]
fn rejects_a_malformed_public_key() {
    let secret = signing_key();
    let sig = secret.sign(b"test-message").to_bytes();
    assert!(!verify_signature(&[0xffu8; 32], &sig, b"test-message"));
}

#[test]
fn rejects_the_key_of_another_signer() {
    let secret = signing_key();
    let other = SigningKey::from_bytes(&[8u8; 32]).verifying_key().to_bytes();
    let sig = secret.sign(b"test-message").to_bytes();
    assert!(!verify_signature(&other, &sig, b"test-message"));
}
