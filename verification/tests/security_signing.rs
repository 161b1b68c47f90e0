use offline_first_sdk::common::AgentIdentity;
use offline_first_sdk::mesh_transport::security::{
    Authenticator, DhKeyPair, EncryptedMessage, KeyPair, SecurityError, SecurityManager, SignedMessage,
};

#[test]
fn test_key_pair_sign_verify() {
    let key_pair = KeyPair::generate();
    let message = b"Hello, world!";
    let signature = key_pair.sign(message);
    let verifying_key = ed25519_dalek::VerifyingKey::from_bytes(&key_pair.verifying_key()).unwrap();
    let signature = ed25519_dalek::Signature::from_bytes(&signature);
    assert!(ed25519_dalek::Verifier::verify(&verifying_key, message, &signature).is_ok());
}

#[test]
fn test_signed_message() {
    let key_pair = KeyPair::generate();
    let payload = vec![1, 2, 3, 4];
    let signed = SignedMessage::new(payload.clone(), &key_pair);
    assert!(signed.verify().is_ok());
    assert_eq!(signed.payload, payload);
}

#[test]
fn security_test_security_manager() {
    let manager = SecurityManager::generate();
    let payload = vec![5, 6, 7];
    let signed = manager.sign(payload);
    assert!(manager.verify(&signed).is_ok());
}

#[test]
fn test_diffie_hellman() {
    let alice = DhKeyPair::generate();
    let bob = DhKeyPair::generate();
    let alice_shared = alice.diffie_hellman(&bob.public_key());
    let bob_shared = bob.diffie_hellman(&alice.public_key());
    assert_eq!(alice_shared, bob_shared);
}

#[test]
fn security_test_hybrid_encryption() {
    let recipient = DhKeyPair::generate();
    let plaintext = b"hybrid secret";
    let (enc, _sender_ephemeral) = EncryptedMessage::encrypt_hybrid(plaintext, &recipient.public_key()).unwrap();
    let decrypted = enc.decrypt_hybrid(recipient.secret()).unwrap();
    assert_eq!(decrypted, plaintext);
}

#[test]
fn tampered_signed_message_is_rejected() {
    let key_pair = KeyPair::generate();
    let mut signed = SignedMessage::new(vec![1, 2, 3], &key_pair);
    signed.payload[0] = 9;
    assert!(matches!(signed.verify(), Err(SecurityError::InvalidSignature)));
    let mut short = SignedMessage::new(vec![1, 2, 3], &key_pair);
    short.public_key.pop();
    assert!(matches!(short.verify(), Err(SecurityError::InvalidSignature)));
}

#[test]
fn signature_is_deterministic_and_key_specific() {
    let key_pair = KeyPair::generate();
    assert_eq!(key_pair.sign(b"abc").to_vec(), key_pair.sign(b"abc").to_vec());
    assert_ne!(key_pair.sign(b"abc").to_vec(), key_pair.sign(b"abd").to_vec());
    let other = KeyPair::generate();
    assert_ne!(key_pair.verifying_key(), other.verifying_key());
}

#[test]
fn authenticator_checks_identity() {
    let key_pair = KeyPair::generate();
    let identity = AgentIdentity { public_key: key_pair.verifying_key().to_vec() };
    let signed = Authenticator::sign_message(vec![4, 2], &key_pair, &identity).unwrap();
    assert!(Authenticator::verify_signed_message(&signed, &identity).is_ok());
    let stranger = AgentIdentity { public_key: KeyPair::generate().verifying_key().to_vec() };
    assert!(matches!(Authenticator::verify_signed_message(&signed, &stranger), Err(SecurityError::InvalidSignature)));
    assert!(matches!(
        Authenticator::sign_message(vec![4, 2], &key_pair, &stranger),
        Err(SecurityError::InvalidSignature)
    ));
}

#[test]
fn hybrid_decryption_errors() {
    let recipient = DhKeyPair::generate();
    let (mut enc, _) = EncryptedMessage::encrypt_hybrid(b"x", &recipient.public_key()).unwrap();
    let other = DhKeyPair::generate();
    assert!(matches!(enc.decrypt_hybrid(other.secret()), Err(SecurityError::Decryption)));
    let key = enc.ephemeral_public_key.clone();
    enc.ephemeral_public_key = Some(vec![1, 2, 3]);
    assert!(matches!(enc.decrypt_hybrid(recipient.secret()), Err(SecurityError::InvalidKeyLength)));
    enc.ephemeral_public_key = None;
    assert!(matches!(enc.decrypt_hybrid(recipient.secret()), Err(SecurityError::Decryption)));
    enc.ephemeral_public_key = key;
    enc.nonce.pop();
    assert!(matches!(enc.decrypt_hybrid(recipient.secret()), Err(SecurityError::InvalidNonceLength)));
}
