use secure_gateway::codec::{deserialize_secured, serialize_secured};
use secure_gateway::error::GatewayError;
use secure_gateway::key_manager::KeyManager;
use secure_gateway::security::{SecuredMessage, SecurityError, SecurityHeader, SecurityMode, SecurityService};

fn service_with_keys(id: &str) -> SecurityService {
    let mut km = KeyManager::new();
    km.generate_encryption_key(id, "enc", None).unwrap();
    km.generate_keypair(id, "pair", None).unwrap();
    SecurityService::new(km)
}

#[test]
fn envelope_round_trip_every_mode() {
    let svc = service_with_keys("k");
    let m = b"telemetry frame".to_vec();
    for mode in [SecurityMode::Plain, SecurityMode::Signed, SecurityMode::Encrypted, SecurityMode::EncryptedAndSigned] {
        let s = svc.secure_message(&m, mode, "k").unwrap();
        assert_eq!(s.header.version, 1);
        assert_eq!(s.header.mode, mode);
        assert_eq!(s.header.key_id, "k");
        assert!(s.hmac.is_none());
        let encrypts = matches!(mode, SecurityMode::Encrypted | SecurityMode::EncryptedAndSigned);
        let signs = matches!(mode, SecurityMode::Signed | SecurityMode::EncryptedAndSigned);
        assert_eq!(s.header.nonce.len(), if encrypts { 12 } else { 0 });
        assert_eq!(s.header.signature.is_some(), signs);
        if encrypts {
            assert_eq!(s.payload.len(), m.len() + 16);
        } else {
            assert_eq!(s.payload, m);
        }
        assert_eq!(svc.extract_message(&s).unwrap(), m);
    }
}

#[test]
fn default_mode_is_encrypted_and_signed() {
    assert_eq!(SecurityMode::default(), SecurityMode::EncryptedAndSigned);
}

#[test]
fn missing_keys_fail_with_key_error() {
    let svc = SecurityService::new(KeyManager::new());
    assert!(svc.secure_message(b"x", SecurityMode::Plain, "none").is_ok());
    for mode in [SecurityMode::Signed, SecurityMode::Encrypted, SecurityMode::EncryptedAndSigned] {
        assert_eq!(
            svc.secure_message(b"x", mode, "none").err(),
            Some(SecurityError::KeyError)
        );
    }
}

#[test]
fn tampering_is_detected() {
    let svc = service_with_keys("k");
    let mut signed = svc.secure_message(b"abc", SecurityMode::Signed, "k").unwrap();
    signed.payload[0] ^= 1;
    assert!(svc.extract_message(&signed).is_err());
    let mut unsigned = svc.secure_message(b"abc", SecurityMode::Signed, "k").unwrap();
    unsigned.header.signature = None;
    assert!(svc.extract_message(&unsigned).is_err());
    let mut sealed = svc.secure_message(b"abc", SecurityMode::EncryptedAndSigned, "k").unwrap();
    sealed.payload[0] ^= 1;
    assert!(svc.extract_message(&sealed).is_err());
}

#[test]
fn rotation_keeps_old_messages_readable() {
    let mut svc = service_with_keys("k1");
    let secured = svc.secure_message(b"in flight", SecurityMode::Encrypted, "k1").unwrap();
    svc.key_manager.rotate_encryption_key("k1", "k2", "next", None, false).unwrap();
    assert_eq!(secured.header.key_id, "k1");
    assert_eq!(svc.extract_message(&secured).unwrap(), b"in flight".to_vec());
    let newer = svc.secure_message(b"new", SecurityMode::Encrypted, "k2").unwrap();
    assert_eq!(svc.extract_message(&newer).unwrap(), b"new".to_vec());
}

#[test]
fn secured_message_serialization_round_trip() {
    let svc = service_with_keys("ключ-1");
    for mode in [SecurityMode::Plain, SecurityMode::Signed, SecurityMode::Encrypted, SecurityMode::EncryptedAndSigned] {
        let s = svc.secure_message(b"round trip", mode, "ключ-1").unwrap();
        let bytes = serialize_secured(&s);
        let t = deserialize_secured(&bytes).unwrap();
        assert_eq!(t.header.version, s.header.version);
        assert_eq!(t.header.mode, s.header.mode);
        assert_eq!(t.header.key_id, s.header.key_id);
        assert_eq!(t.header.nonce, s.header.nonce);
        assert_eq!(t.header.signature, s.header.signature);
        assert_eq!(t.payload, s.payload);
        assert_eq!(t.hmac, s.hmac);
        assert_eq!(svc.extract_message(&t).unwrap(), b"round trip".to_vec());
    }
}

#[test]
fn deserialization_rejects_malformed_bytes() {
    let s = SecuredMessage {
        header: SecurityHeader {
            version: 1,
            mode: SecurityMode::Plain,
            key_id: "id".to_string(),
            nonce: vec![],
            signature: None,
        },
        payload: vec![1, 2, 3],
        hmac: Some(vec![4]),
    };
    let bytes = serialize_secured(&s);
    assert!(deserialize_secured(&bytes).is_ok());
    let mut trailing = bytes.clone();
    trailing.push(0);
    assert_eq!(deserialize_secured(&trailing).err(), Some(GatewayError::Parse));
    assert!(deserialize_secured(&bytes[..bytes.len() - 1]).is_err());
    let mut bad_mode = bytes.clone();
    bad_mode[1] = 9;
    assert!(deserialize_secured(&bad_mode).is_err());
    assert!(deserialize_secured(&[]).is_err());
}

#[test]
fn service_serialize_round_trip() {
    let svc = service_with_keys("k");
    let s = svc.secure_message(b"frame", SecurityMode::EncryptedAndSigned, "k").unwrap();
    let bytes = svc.serialize(&s);
    assert_eq!(bytes, serialize_secured(&s));
    let t = svc.deserialize(&bytes).unwrap();
    assert_eq!(svc.extract_message(&t).unwrap(), b"frame".to_vec());
    assert!(svc.deserialize(&bytes[1..]).is_err());
}

#[test]
fn extraction_errors_name_their_cause() {
    let svc = service_with_keys("k");
    let mut unsigned = svc.secure_message(b"abc", SecurityMode::Signed, "k").unwrap();
    unsigned.header.signature = None;
    assert_eq!(svc.extract_message(&unsigned).err(), Some(SecurityError::AuthenticationFailed));
    let mut forged = svc.secure_message(b"abc", SecurityMode::Signed, "k").unwrap();
    forged.payload[0] ^= 1;
    assert_eq!(svc.extract_message(&forged).err(), Some(SecurityError::AuthenticationFailed));
    let mut bad_tag = svc.secure_message(b"abc", SecurityMode::Encrypted, "k").unwrap();
    bad_tag.payload[0] ^= 1;
    assert_eq!(svc.extract_message(&bad_tag).err(), Some(SecurityError::DecryptionFailed));
    let mut other_key = svc.secure_message(b"abc", SecurityMode::EncryptedAndSigned, "k").unwrap();
    other_key.header.key_id = "missing".to_string();
    assert_eq!(svc.extract_message(&other_key).err(), Some(SecurityError::KeyError));
    let plain = svc.secure_message(b"abc", SecurityMode::Plain, "missing").unwrap();
    assert!(plain.header.nonce.is_empty());
    assert_eq!(svc.extract_message(&plain).unwrap(), b"abc".to_vec());
}
