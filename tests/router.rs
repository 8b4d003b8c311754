use secure_gateway::config::{TransformType, TranslationRule};
use secure_gateway::error::GatewayError;
use secure_gateway::protocols::{CommonMessage, MessageMetadata, ProtocolType};
use secure_gateway::router::Router;
use secure_gateway::security::SecurityMode;
use secure_gateway::text::FieldMap;

fn create_test_rule(name: &str, source: ProtocolType, target: ProtocolType) -> TranslationRule {
    TranslationRule {
        name: name.to_string(),
        source,
        target,
        priority: 5,
        filter: FieldMap::new(),
        transform: Some(TransformType::Identity),
        security_mode: SecurityMode::EncryptedAndSigned,
    }
}

fn create_test_message(source: ProtocolType, target: Option<ProtocolType>) -> CommonMessage {
    CommonMessage {
        source_protocol: source,
        target_protocol: target,
        priority: 3,
        payload: vec![1, 2, 3, 4],
        metadata: MessageMetadata {
            source_address: "test-source".to_string(),
            destination_address: "test-dest".to_string(),
            timestamp: 12345,
            message_id: 67890,
            is_command: true,
            requires_response: true,
        },
    }
}

#[test]
fn test_rule_matching() {
    let rules = vec![
        create_test_rule("rule1", ProtocolType::MilStd1553, ProtocolType::EthernetIp),
        create_test_rule("rule2", ProtocolType::EthernetIp, ProtocolType::MilStd1553),
    ];
    let router = Router::new(&rules);

    let msg1 = create_test_message(ProtocolType::MilStd1553, Some(ProtocolType::EthernetIp));
    let rule1 = router.find_rule(&msg1).unwrap();
    assert_eq!(rule1.name, "rule1");

    let msg2 = create_test_message(ProtocolType::EthernetIp, Some(ProtocolType::MilStd1553));
    let rule2 = router.find_rule(&msg2).unwrap();
    assert_eq!(rule2.name, "rule2");

    let msg3 = create_test_message(ProtocolType::MilStd1553, Some(ProtocolType::MilStd1553));
    assert!(router.find_rule(&msg3).is_err(), "Should not find a rule for same source and target");
}

#[test]
fn test_rule_with_filter() {
    let mut rule = create_test_rule("filtered", ProtocolType::MilStd1553, ProtocolType::EthernetIp);
    rule.filter.insert("source_address".to_string(), "RT1".to_string());
    let rules = vec![rule];
    let router = Router::new(&rules);

    let mut msg1 = create_test_message(ProtocolType::MilStd1553, Some(ProtocolType::EthernetIp));
    msg1.metadata.source_address = "RT1".to_string();
    assert!(router.find_rule(&msg1).is_ok());

    let mut msg2 = create_test_message(ProtocolType::MilStd1553, Some(ProtocolType::EthernetIp));
    msg2.metadata.source_address = "RT2".to_string();
    assert!(router.find_rule(&msg2).is_err());
}

#[test]
fn test_rule_priority() {
    let mut rule1 = create_test_rule("high-priority", ProtocolType::MilStd1553, ProtocolType::EthernetIp);
    rule1.priority = 1;
    let mut rule2 = create_test_rule("low-priority", ProtocolType::MilStd1553, ProtocolType::EthernetIp);
    rule2.priority = 10;

    let router = Router::new(&[rule2.clone(), rule1.clone()]);
    let msg = create_test_message(ProtocolType::MilStd1553, Some(ProtocolType::EthernetIp));
    let matched = router.find_rule(&msg).unwrap();
    assert_eq!(matched.name, "high-priority");
    assert_eq!(matched.priority, 1);
}

#[test]
fn priority_tie_break_either_insertion_order() {
    let mut a = create_test_rule("ten", ProtocolType::MilStd1553, ProtocolType::EthernetIp);
    a.priority = 10;
    let mut b = create_test_rule("one", ProtocolType::MilStd1553, ProtocolType::EthernetIp);
    b.priority = 1;
    let msg = create_test_message(ProtocolType::MilStd1553, Some(ProtocolType::EthernetIp));
    let first = Router::new(&[a.clone(), b.clone()]);
    assert_eq!(first.find_rule(&msg).unwrap().name, "one");
    let second = Router::new(&[b, a]);
    assert_eq!(second.find_rule(&msg).unwrap().name, "one");
}

#[test]
fn equal_priorities_keep_insertion_order() {
    let a = create_test_rule("first", ProtocolType::MilStd1553, ProtocolType::EthernetIp);
    let b = create_test_rule("second", ProtocolType::MilStd1553, ProtocolType::EthernetIp);
    let router = Router::new(&[a, b]);
    let msg = create_test_message(ProtocolType::MilStd1553, Some(ProtocolType::EthernetIp));
    assert_eq!(router.find_rule(&msg).unwrap().name, "first");
}

#[test]
fn lowest_matching_priority_skips_filtered_rule() {
    let mut a = create_test_rule("best-but-filtered", ProtocolType::MilStd1553, ProtocolType::EthernetIp);
    a.priority = 1;
    a.filter.insert("is_command".to_string(), "false".to_string());
    let mut b = create_test_rule("next", ProtocolType::MilStd1553, ProtocolType::EthernetIp);
    b.priority = 7;
    let mut c = create_test_rule("last", ProtocolType::MilStd1553, ProtocolType::EthernetIp);
    c.priority = 9;
    let router = Router::new(&[c, a, b]);
    let msg = create_test_message(ProtocolType::MilStd1553, Some(ProtocolType::EthernetIp));
    assert_eq!(router.find_rule(&msg).unwrap().name, "next");
}

#[test]
fn self_translation_is_invalid_route() {
    let rules = vec![create_test_rule("ip-to-mil", ProtocolType::EthernetIp, ProtocolType::MilStd1553)];
    let router = Router::new(&rules);
    let msg = create_test_message(ProtocolType::EthernetIp, Some(ProtocolType::EthernetIp));
    assert_eq!(router.find_rule(&msg).err(), Some(GatewayError::InvalidRoute));
}

#[test]
fn no_rule_is_no_route() {
    let rules = vec![create_test_rule("ip-to-mil", ProtocolType::EthernetIp, ProtocolType::MilStd1553)];
    let router = Router::new(&rules);
    let msg = create_test_message(ProtocolType::MilStd1553, Some(ProtocolType::EthernetIp));
    assert_eq!(router.find_rule(&msg).err(), Some(GatewayError::NoRoute));
}

#[test]
fn wildcard_target_picks_rule_from_source() {
    let rules = vec![create_test_rule("mil-to-ip", ProtocolType::MilStd1553, ProtocolType::EthernetIp)];
    let router = Router::new(&rules);
    let msg = create_test_message(ProtocolType::MilStd1553, None);
    assert_eq!(router.find_rule(&msg).unwrap().name, "mil-to-ip");
}

#[test]
fn filter_keys_and_unknown_keys() {
    let mut rule = create_test_rule("f", ProtocolType::MilStd1553, ProtocolType::EthernetIp);
    rule.filter.insert("priority".to_string(), "3".to_string());
    rule.filter.insert("requires_response".to_string(), "true".to_string());
    rule.filter.insert("destination_address".to_string(), "".to_string());
    rule.filter.insert("colour".to_string(), "blue".to_string());
    let router = Router::new(&[rule]);
    let mut msg = create_test_message(ProtocolType::MilStd1553, Some(ProtocolType::EthernetIp));
    assert!(router.find_rule(&msg).is_ok());
    msg.priority = 4;
    assert_eq!(router.find_rule(&msg).err(), Some(GatewayError::NoRoute));
}

#[test]
fn add_and_remove_rules() {
    let mut router = Router::new(&[]);
    router.add_rule(create_test_rule("a", ProtocolType::MilStd1553, ProtocolType::EthernetIp));
    router.add_rule(create_test_rule("b", ProtocolType::EthernetIp, ProtocolType::MilStd1553));
    assert_eq!(router.get_rules().len(), 2);
    assert!(router.remove_rule("a").is_ok());
    assert_eq!(router.get_rules().len(), 1);
    assert_eq!(router.get_rules()[0].name, "b");
    assert_eq!(router.remove_rule("a").err(), Some(GatewayError::NoRoute));
}
