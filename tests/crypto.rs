use secure_gateway::crypto::{
    decrypt_message, encrypt_message, encrypt_with_nonce, generate_encryption_key,
    generate_signing_keypair, sign_message, verify_signature, CHACHA_KEY_SIZE,
};
use secure_gateway::security::SecurityError;

#[test]
fn test_encrypt_decrypt() {
    let key = generate_encryption_key().unwrap();
    let message = b"This is a secret message for testing";
    let (ciphertext, nonce) = encrypt_message(message, &key).unwrap();
    assert_ne!(ciphertext, message);
    let decrypted = decrypt_message(&ciphertext, &nonce, &key).unwrap();
    assert_eq!(decrypted, message);
    let wrong_key = generate_encryption_key().unwrap();
    let result = decrypt_message(&ciphertext, &nonce, &wrong_key);
    assert!(result.is_err());
}

#[test]
fn test_sign_verify() {
    let (private_key, public_key) = generate_signing_keypair().unwrap();
    let message = b"This message needs to be authenticated";
    let signature = sign_message(message, &private_key).unwrap();
    let result = verify_signature(message, &signature, &public_key);
    assert!(result.is_ok());
    let tampered = b"This message has been tampered with!";
    let result = verify_signature(tampered, &signature, &public_key);
    assert!(result.is_err());
    let (_, wrong_public_key) = generate_signing_keypair().unwrap();
    let result = verify_signature(message, &signature, &wrong_public_key);
    assert!(result.is_err());
}

#[test]
fn ciphertext_carries_tag_and_fixed_nonce_is_deterministic() {
    let key = [7u8; 32];
    let (c1, n1) = encrypt_with_nonce(b"abc", &key, vec![1; 12]).unwrap();
    let (c2, _) = encrypt_with_nonce(b"abc", &key, vec![1; 12]).unwrap();
    assert_eq!(c1, c2);
    assert_eq!(c1.len(), 3 + 16);
    assert_eq!(n1, vec![1; 12]);
    assert_eq!(decrypt_message(&c1, &n1, &key).unwrap(), b"abc".to_vec());
    let (empty, _) = encrypt_with_nonce(b"", &key, vec![0; 12]).unwrap();
    assert_eq!(empty.len(), 16);
}

#[test]
fn crypto_size_errors() {
    assert_eq!(encrypt_message(b"x", &[0u8; 31]).err(), Some(SecurityError::EncryptionFailed));
    assert_eq!(decrypt_message(b"x", &[0u8; 12], &[0u8; 31]).err(), Some(SecurityError::DecryptionFailed));
    assert_eq!(decrypt_message(b"x", &[0u8; 11], &[0u8; 32]).err(), Some(SecurityError::DecryptionFailed));
    assert_eq!(sign_message(b"x", &[0u8; 31]).err(), Some(SecurityError::AuthenticationFailed));
    assert_eq!(verify_signature(b"x", &[0u8; 63], &[0u8; 32]).err(), Some(SecurityError::AuthenticationFailed));
    assert_eq!(verify_signature(b"x", &[0u8; 64], &[0u8; 31]).err(), Some(SecurityError::AuthenticationFailed));
    assert_eq!(generate_encryption_key().unwrap().len(), CHACHA_KEY_SIZE);
}

#[test]
fn tampered_ciphertext_fails() {
    let key = [3u8; 32];
    let (mut c, n) = encrypt_with_nonce(b"hello", &key, vec![2; 12]).unwrap();
    c[0] ^= 1;
    assert!(decrypt_message(&c, &n, &key).is_err());
}
