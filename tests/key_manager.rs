use secure_gateway::crypto::{
    sign_message, verify_signature, CHACHA_KEY_SIZE, ED25519_PRIVATE_KEY_SIZE,
    ED25519_PUBLIC_KEY_SIZE,
};
use secure_gateway::key_manager::{KeyManager, KeyType};
use secure_gateway::security::SecurityError;
use secure_gateway::utils::current_time_secs;

#[test]
fn test_key_generation() {
    let mut km = KeyManager::new();
    km.generate_encryption_key("test-enc", "Test encryption key", None).unwrap();
    km.generate_keypair("test-pair", "Test keypair", None).unwrap();
    let enc_key = km.get_encryption_key("test-enc").unwrap();
    assert_eq!(enc_key.len(), CHACHA_KEY_SIZE);
    let signing_key = km.get_signing_key("test-pair-signing").unwrap();
    assert_eq!(signing_key.len(), ED25519_PRIVATE_KEY_SIZE);
    let verify_key = km.get_verification_key("test-pair-verify").unwrap();
    assert_eq!(verify_key.len(), ED25519_PUBLIC_KEY_SIZE);
    let keys = km.list_keys();
    assert_eq!(keys.len(), 3);
}

#[test]
fn test_key_rotation() {
    let mut km = KeyManager::new();
    km.generate_encryption_key("enc-v1", "Encryption key v1", None).unwrap();
    km.generate_keypair("pair-v1", "Keypair v1", None).unwrap();
    km.rotate_encryption_key("enc-v1", "enc-v2", "Encryption key v2", None, false).unwrap();
    km.rotate_keypair("pair-v1", "pair-v2", "Keypair v2", None, false).unwrap();
    assert!(km.get_encryption_key("enc-v1").is_ok());
    assert!(km.get_encryption_key("enc-v2").is_ok());
    assert!(km.get_signing_key("pair-v1-signing").is_ok());
    assert!(km.get_signing_key("pair-v2-signing").is_ok());
    km.rotate_encryption_key("enc-v2", "enc-v3", "Encryption key v3", None, true).unwrap();
    km.rotate_keypair("pair-v2", "pair-v3", "Keypair v3", None, true).unwrap();
    assert!(km.get_encryption_key("enc-v2").is_err());
    assert!(km.get_encryption_key("enc-v3").is_ok());
    assert!(km.get_signing_key("pair-v2-signing").is_err());
    assert!(km.get_signing_key("pair-v3-signing").is_ok());
    assert!(km.get_encryption_key("enc-v1").is_ok());
    assert!(km.get_signing_key("pair-v1-signing").is_ok());
}

#[test]
fn test_key_expiration() {
    let mut km = KeyManager::new();
    let now = current_time_secs();
    // Created two days ago with a lifetime of one day: expired a day ago.
    km.import_key_at("expired-key", KeyType::Encryption, &[5u8; 32], "Expired key", Some(1), now - 2 * 86400)
        .unwrap();
    let result = km.get_encryption_key("expired-key");
    assert!(result.is_err());
    km.generate_encryption_key("non-expiring", "Non-expiring key", None).unwrap();
    let key = km.get_encryption_key("non-expiring");
    assert!(key.is_ok());
}

#[test]
fn expired_keys_refused_by_every_getter() {
    let mut km = KeyManager::new();
    km.import_key_at("e", KeyType::Encryption, &[1u8; 32], "", Some(1), 1000).unwrap();
    km.import_key_at("s", KeyType::Signing, &[1u8; 32], "", Some(1), 1000).unwrap();
    km.import_key_at("v", KeyType::Verification, &[1u8; 32], "", Some(1), 1000).unwrap();
    let expiry = 1000 + 86400;
    assert!(km.get_encryption_key_at("e", expiry).is_ok());
    assert!(km.get_encryption_key_at("e", expiry + 1).is_err());
    assert!(km.get_signing_key_at("s", expiry).is_ok());
    assert!(km.get_signing_key_at("s", expiry + 1).is_err());
    assert!(km.get_verification_key_at("v", expiry).is_ok());
    assert!(km.get_verification_key_at("v", expiry + 1).is_err());
    assert!(km.get_signing_key("s").is_err());
}

#[test]
fn wrong_type_missing_and_bad_size() {
    let mut km = KeyManager::new();
    km.import_key("k", KeyType::Signing, &[9u8; 32], "d", None).unwrap();
    assert_eq!(km.get_encryption_key("k").err(), Some(SecurityError::KeyError));
    assert_eq!(km.get_verification_key("k").err(), Some(SecurityError::KeyError));
    assert_eq!(km.get_signing_key("k").unwrap(), vec![9u8; 32]);
    assert_eq!(km.get_signing_key("nope").err(), Some(SecurityError::KeyError));
    assert_eq!(km.import_key("bad", KeyType::Encryption, &[0u8; 16], "d", None).err(), Some(SecurityError::KeyError));
    assert_eq!(km.delete_key("nope").err(), Some(SecurityError::KeyError));
    assert!(km.delete_key("k").is_ok());
    assert!(km.list_keys().is_empty());
}

#[test]
fn keypair_halves_are_counterparts() {
    let mut km = KeyManager::new();
    km.generate_keypair("X", "pair", None).unwrap();
    let seed = km.get_signing_key("X-signing").unwrap();
    let public = km.get_verification_key("X-verify").unwrap();
    let sig = sign_message(b"payload", &seed).unwrap();
    assert!(verify_signature(b"payload", &sig, &public).is_ok());
    assert!(verify_signature(b"other", &sig, &public).is_err());
    let listed = km.list_keys();
    let signing = listed.iter().find(|m| m.id == "X-signing").unwrap();
    assert_eq!(signing.description, "pair (signing)");
    assert_eq!(signing.key_type, KeyType::Signing);
    let verify = listed.iter().find(|m| m.id == "X-verify").unwrap();
    assert_eq!(verify.description, "pair (verification)");
}

#[test]
fn ttl_sets_expiry_and_saturates() {
    let mut km = KeyManager::new();
    km.import_key_at("a", KeyType::Encryption, &[1u8; 32], "", Some(2), 100).unwrap();
    km.import_key_at("b", KeyType::Encryption, &[1u8; 32], "", Some(u64::MAX), 100).unwrap();
    let listed = km.list_keys();
    let a = listed.iter().find(|m| m.id == "a").unwrap();
    assert_eq!(a.created_at, 100);
    assert_eq!(a.expires_at, Some(100 + 2 * 86400));
    let b = listed.iter().find(|m| m.id == "b").unwrap();
    assert_eq!(b.expires_at, Some(u64::MAX));
}

#[test]
fn rotation_with_missing_old_key_keeps_new_key() {
    let mut km = KeyManager::new();
    assert!(km.rotate_encryption_key("absent", "fresh", "d", None, true).is_err());
    assert!(km.get_encryption_key("fresh").is_ok());
}

#[test]
fn test_persistence() {
    let mut km = KeyManager::new();
    km.generate_encryption_key("test-enc", "Test encryption key", None).unwrap();
    km.generate_keypair("test-pair", "Test keypair", Some(3)).unwrap();
    let bytes = km.to_bytes();
    let restored = KeyManager::from_bytes(&bytes).unwrap();
    let enc_key = restored.get_encryption_key("test-enc").unwrap();
    assert_eq!(enc_key.len(), CHACHA_KEY_SIZE);
    assert_eq!(enc_key, km.get_encryption_key("test-enc").unwrap());
    let signing_key = restored.get_signing_key("test-pair-signing").unwrap();
    assert_eq!(signing_key.len(), ED25519_PRIVATE_KEY_SIZE);
    assert_eq!(restored.list_keys().len(), 3);
    assert_eq!(restored.to_bytes(), bytes);
    assert!(KeyManager::from_bytes(&bytes[..bytes.len() - 1]).is_err());
    assert!(KeyManager::from_bytes(&[]).is_err());
    assert_eq!(KeyManager::from_bytes(&KeyManager::new().to_bytes()).unwrap().list_keys().len(), 0);
}
