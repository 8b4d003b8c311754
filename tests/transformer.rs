use secure_gateway::config::{TransformType, TranslationRule};
use secure_gateway::error::GatewayError;
use secure_gateway::protocols::{CommonMessage, MessageMetadata, ProtocolType};
use secure_gateway::security::SecurityMode;
use secure_gateway::text::FieldMap;
use secure_gateway::transformer::{HeaderEnrichmentTransform, Transformer};

fn create_test_message() -> CommonMessage {
    CommonMessage {
        source_protocol: ProtocolType::MilStd1553,
        target_protocol: Some(ProtocolType::EthernetIp),
        priority: 3,
        payload: vec![1, 2, 3, 4],
        metadata: MessageMetadata {
            source_address: "test-source".to_string(),
            destination_address: "test-dest".to_string(),
            timestamp: 12345,
            message_id: 67890,
            is_command: true,
            requires_response: true,
        },
    }
}

fn create_test_rule(transform: Option<TransformType>) -> TranslationRule {
    TranslationRule {
        name: "test-rule".to_string(),
        source: ProtocolType::MilStd1553,
        target: ProtocolType::EthernetIp,
        priority: 5,
        filter: FieldMap::new(),
        transform,
        security_mode: SecurityMode::EncryptedAndSigned,
    }
}

#[test]
fn test_identity_transform() {
    let transformer = Transformer::new();
    let message = create_test_message();
    let rule = create_test_rule(Some(TransformType::Identity));
    let result = transformer.transform(&message, &rule).unwrap();
    assert_eq!(result.payload, message.payload);
    assert_eq!(result.metadata.source_address, message.metadata.source_address);
    assert_eq!(result.metadata.destination_address, message.metadata.destination_address);
    assert_eq!(result.target_protocol, Some(ProtocolType::EthernetIp));
}

#[test]
fn test_field_map_transform() {
    let transformer = Transformer::new();
    let message = create_test_message();
    let mut field_map = FieldMap::new();
    field_map.insert("priority".to_string(), "10".to_string());
    let rule = create_test_rule(Some(TransformType::FieldMap(field_map)));
    let result = transformer.transform(&message, &rule).unwrap();
    assert_eq!(result.priority, 10);
    assert_eq!(result.payload, message.payload);
}

#[test]
fn test_custom_transform() {
    let mut transformer = Transformer::new();
    let mut enrichment = HeaderEnrichmentTransform::new("test-enrichment");
    enrichment.add_field("source", "enriched-source");
    transformer.register_module(Box::new(enrichment));
    let message = create_test_message();
    let rule = create_test_rule(Some(TransformType::Custom("test-enrichment".to_string())));
    let result = transformer.transform(&message, &rule).unwrap();
    assert_eq!(result.priority, message.priority + 1);
}

#[test]
fn test_missing_custom_transform() {
    let transformer = Transformer::new();
    let message = create_test_message();
    let rule = create_test_rule(Some(TransformType::Custom("non-existent".to_string())));
    assert!(transformer.transform(&message, &rule).is_err());
}

#[test]
fn missing_module_is_no_transform() {
    let transformer = Transformer::new();
    let rule = create_test_rule(Some(TransformType::Custom("none".to_string())));
    assert_eq!(transformer.transform(&create_test_message(), &rule).err(), Some(GatewayError::NoTransform));
}

#[test]
fn field_map_with_bad_priority_keeps_priority() {
    let transformer = Transformer::new();
    let mut field_map = FieldMap::new();
    field_map.insert("priority".to_string(), "high".to_string());
    let rule = create_test_rule(Some(TransformType::FieldMap(field_map)));
    let result = transformer.transform(&create_test_message(), &rule).unwrap();
    assert_eq!(result.priority, 3);
}

#[test]
fn enrichment_saturates_priority_and_retargets() {
    let mut transformer = Transformer::new();
    transformer.register_module(Box::new(HeaderEnrichmentTransform::new("e")));
    let mut message = create_test_message();
    message.priority = 255;
    message.target_protocol = None;
    let rule = create_test_rule(Some(TransformType::Custom("e".to_string())));
    let result = transformer.transform(&message, &rule).unwrap();
    assert_eq!(result.priority, 255);
    assert_eq!(result.target_protocol, Some(ProtocolType::EthernetIp));
}
