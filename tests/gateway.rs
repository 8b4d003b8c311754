use secure_gateway::codec::{deserialize_secured, serialize_common};
use secure_gateway::config::{Config, LogLevel};
use secure_gateway::error::GatewayError;
use secure_gateway::ethernet_ip::parse_ethernet_ip;
use secure_gateway::gateway::{Gateway, PipelineEvent, PipelineReply, PipelineState};
use secure_gateway::crypto::{generate_encryption_key, generate_signing_keypair};
use secure_gateway::key_manager::{KeyManager, KeyType};
use secure_gateway::mil1553::{parse_mil_std_1553, Mil1553Handler};
use secure_gateway::protocols::{Message, ProtocolHandler, ProtocolType};
use secure_gateway::security::{SecurityMode, SecurityService};
use secure_gateway::transformer::Transformer;

fn same_keys(id: &str, enc: &[u8], seed: &[u8], public: &[u8]) -> KeyManager {
    let mut km = KeyManager::new();
    km.import_key(id, KeyType::Encryption, enc, "enc", None).unwrap();
    km.import_key(&format!("{}-signing", id), KeyType::Signing, seed, "seed", None).unwrap();
    km.import_key(&format!("{}-verify", id), KeyType::Verification, public, "public", None).unwrap();
    km
}

fn keys(id: &str) -> KeyManager {
    let mut km = KeyManager::new();
    km.generate_encryption_key(id, "enc", None).unwrap();
    km.generate_keypair(id, "pair", None).unwrap();
    km
}

#[test]
fn legacy_to_ip_command_encrypted_and_signed() {
    let config = Config::default();
    let legacy = parse_mil_std_1553(&[0x28, 0x43, 0xDE, 0xAD, 0xBE, 0xEF]).unwrap();
    let common = legacy.to_common_format().unwrap();
    assert_eq!(common.metadata.source_address, "BC");
    assert_eq!(common.metadata.destination_address, "RT5");
    assert!(common.metadata.is_command);

    let enc = generate_encryption_key().unwrap();
    let (seed, public) = generate_signing_keypair().unwrap();
    let mut gw = Gateway::new(&config, same_keys("default-encryption", &enc, &seed, &public));
    gw.start().unwrap();
    let reply = gw.step(PipelineEvent::Process { message: common.clone(), nonce: vec![7; 12], now: 0 });
    let processed = match reply {
        PipelineReply::Processed(r) => r.unwrap(),
        PipelineReply::ShutdownAcknowledged => panic!("unexpected acknowledgement"),
    };
    assert_eq!(processed.target, ProtocolType::EthernetIp);
    assert_eq!(processed.rule_index, 0);

    let secured = deserialize_secured(&processed.bytes).unwrap();
    assert_eq!(secured.header.mode, SecurityMode::EncryptedAndSigned);
    assert!(!secured.header.nonce.is_empty());
    assert!(secured.header.signature.is_some());

    let rule = &config.translation_rules[0];
    let transformed = Transformer::new().transform(&common, rule).unwrap();
    let plaintext = serialize_common(&transformed);
    assert_eq!(secured.payload.len(), plaintext.len() + 16);
    let svc = SecurityService::new(same_keys("default-encryption", &enc, &seed, &public));
    assert_eq!(svc.extract_message(&secured).unwrap(), plaintext);
    let stranger = SecurityService::new(keys("default-encryption"));
    assert!(stranger.extract_message(&secured).is_err());
}

#[test]
fn ip_to_legacy_unit_data() {
    let mut data = vec![0x70, 0x00, 0x00, 0x1C];
    data.extend_from_slice(&[0, 0, 0, 1]);
    data.extend_from_slice(&[0, 0, 0, 0]);
    data.extend_from_slice(&[0; 8]);
    data.extend_from_slice(&[0, 0, 0, 0]);
    data.extend_from_slice(&[0xDE, 0xAD, 0xBE, 0xEF]);
    assert_eq!(data.len(), 28);
    let packet = parse_ethernet_ip(&data).unwrap();
    let mut common = packet.to_common_format().unwrap();
    assert!(!common.metadata.is_command);
    assert!(!common.metadata.requires_response);
    assert_eq!(common.priority, 3);

    let config = Config::default();
    let mut gw = Gateway::new(&config, keys("default-encryption"));
    gw.start().unwrap();
    match gw.step(PipelineEvent::Process { message: common.clone(), nonce: vec![1; 12], now: 0 }) {
        PipelineReply::Processed(r) => assert_eq!(r.unwrap().target, ProtocolType::MilStd1553),
        PipelineReply::ShutdownAcknowledged => panic!("unexpected acknowledgement"),
    }

    common.metadata.destination_address = "RT9".to_string();
    let out = Mil1553Handler::new().format(&common).unwrap();
    let cmd = u16::from_be_bytes([out[0], out[1]]);
    assert_eq!(cmd & 0x1F, 2);
    assert_eq!(cmd >> 11, 9);
    assert_eq!(&out[2..], &[0xDE, 0xAD, 0xBE, 0xEF]);
}

#[test]
fn self_translation_rejected_by_pipeline() {
    let config = Config::default();
    let mut gw = Gateway::new(&config, keys("default-encryption"));
    gw.start().unwrap();
    let mut msg = parse_mil_std_1553(&[0x28, 0x43]).unwrap().to_common();
    msg.source_protocol = ProtocolType::EthernetIp;
    msg.target_protocol = Some(ProtocolType::EthernetIp);
    match gw.step(PipelineEvent::Process { message: msg, nonce: vec![0; 12], now: 0 }) {
        PipelineReply::Processed(r) => assert_eq!(r.err(), Some(GatewayError::InvalidRoute)),
        PipelineReply::ShutdownAcknowledged => panic!("unexpected acknowledgement"),
    }
}

#[test]
fn lifecycle() {
    let config = Config::default();
    let mut gw = Gateway::new(&config, keys("default-encryption"));
    assert_eq!(gw.state(), PipelineState::Initialized);
    let msg = parse_mil_std_1553(&[0x28, 0x43]).unwrap().to_common();
    match gw.step(PipelineEvent::Process { message: msg.clone(), nonce: vec![0; 12], now: 0 }) {
        PipelineReply::Processed(r) => assert_eq!(r.err(), Some(GatewayError::NotRunning)),
        PipelineReply::ShutdownAcknowledged => panic!("unexpected acknowledgement"),
    }
    gw.start().unwrap();
    assert_eq!(gw.state(), PipelineState::Running);
    assert_eq!(gw.start().err(), Some(GatewayError::NotRunning));
    assert!(matches!(gw.step(PipelineEvent::Shutdown), PipelineReply::ShutdownAcknowledged));
    assert_eq!(gw.state(), PipelineState::Stopped);
    match gw.step(PipelineEvent::Process { message: msg, nonce: vec![0; 12], now: 0 }) {
        PipelineReply::Processed(r) => assert_eq!(r.err(), Some(GatewayError::NotRunning)),
        PipelineReply::ShutdownAcknowledged => panic!("unexpected acknowledgement"),
    }
}

#[test]
fn missing_keys_surface_as_security_errors() {
    let config = Config::default();
    let mut gw = Gateway::new(&config, KeyManager::new());
    gw.start().unwrap();
    let msg = parse_mil_std_1553(&[0x28, 0x43]).unwrap().to_common();
    match gw.step(PipelineEvent::Process { message: msg, nonce: vec![0; 12], now: 0 }) {
        PipelineReply::Processed(r) => assert_eq!(
            r.err(),
            Some(GatewayError::Security(secure_gateway::security::SecurityError::KeyError))
        ),
        PipelineReply::ShutdownAcknowledged => panic!("unexpected acknowledgement"),
    }
}

#[test]
fn default_config_validates() {
    let mut config = Config::default();
    assert!(config.validate().is_ok());
    assert_eq!(config.general.queue_size, 1000);
    assert_eq!(config.get_ethernet_ip_timeout(), 30);
    assert_eq!(config.get_ethernet_ip_idle_timeout(), 300);
    assert_eq!(config.get_log_level(), LogLevel::Info);
    config.general.log_level = "DeBuG".to_string();
    assert_eq!(config.get_log_level(), LogLevel::Debug);
    config.general.log_level = "verbose".to_string();
    assert_eq!(config.get_log_level(), LogLevel::Info);
    assert_eq!(config.worker_count_with(8), 8);
    config.protocols.ethernet_ip.port = 0;
    assert_eq!(config.validate().err(), Some(GatewayError::Config));
}

#[test]
fn config_validation_failures() {
    let mut c = Config::default();
    c.protocols.mil_std_1553.remote_terminals.push(32);
    assert!(c.validate().is_err());
    let mut c = Config::default();
    c.security.default_signing_key = String::new();
    assert!(c.validate().is_err());
    let mut c = Config::default();
    c.translation_rules[1].target = ProtocolType::EthernetIp;
    assert!(c.validate().is_err());
    let mut c = Config::default();
    c.translation_rules[0].name = String::new();
    assert!(c.validate().is_err());
}
