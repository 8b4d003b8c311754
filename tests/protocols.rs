use secure_gateway::ethernet_ip::{
    parse_ethernet_ip, validate_ethernet_ip, CommandType, EthernetIpHandler, EthernetIpPacket,
};
use secure_gateway::mil1553::{
    parse_mil_std_1553, validate_command_word, validate_status_word, MessageType, Mil1553Handler,
    Mil1553Message, Word,
};
use secure_gateway::protocols::{
    create_ethernet_ip_handler, create_mil_std_1553_handler, CommonMessage, Message, MessageMetadata,
    ProtocolHandler, ProtocolType,
};

#[test]
fn test_parse_bc_to_rt() {
    let command_word: u16 = (5 << 11) | (0 << 10) | (2 << 5) | 3;
    let data1: u16 = 0x1234;
    let data2: u16 = 0x5678;
    let data3: u16 = 0x9ABC;
    let mut data = Vec::new();
    data.extend_from_slice(&command_word.to_be_bytes());
    data.extend_from_slice(&data1.to_be_bytes());
    data.extend_from_slice(&data2.to_be_bytes());
    data.extend_from_slice(&data3.to_be_bytes());
    let message = parse_mil_std_1553(&data).unwrap();
    assert_eq!(message.message_type, MessageType::BcToRt);
    assert_eq!(message.remote_terminal_address, 5);
    assert_eq!(message.subaddress, 2);
    assert_eq!(message.word_count, 3);
    assert_eq!(message.data_words.len(), 3);
    assert_eq!(message.data_words[0].value(), data1);
    assert_eq!(message.data_words[1].value(), data2);
    assert_eq!(message.data_words[2].value(), data3);
}

#[test]
fn test_parse_rt_to_bc() {
    let command_word: u16 = (3 << 11) | (1 << 10) | (7 << 5) | 2;
    let status_word: u16 = 3 << 11;
    let data1: u16 = 0x1234;
    let data2: u16 = 0x5678;
    let mut data = Vec::new();
    data.extend_from_slice(&command_word.to_be_bytes());
    data.extend_from_slice(&status_word.to_be_bytes());
    data.extend_from_slice(&data1.to_be_bytes());
    data.extend_from_slice(&data2.to_be_bytes());
    let message = parse_mil_std_1553(&data).unwrap();
    assert_eq!(message.message_type, MessageType::RtToBc);
    assert_eq!(message.remote_terminal_address, 3);
    assert_eq!(message.subaddress, 7);
    assert_eq!(message.word_count, 2);
    assert!(message.status_word.is_some());
    assert_eq!(message.status_word.unwrap().value(), status_word);
    assert_eq!(message.data_words.len(), 2);
    assert_eq!(message.data_words[0].value(), data1);
    assert_eq!(message.data_words[1].value(), data2);
}

#[test]
fn legacy_parse_too_short_and_mode_code() {
    assert!(parse_mil_std_1553(&[0x28]).is_err());
    let m = parse_mil_std_1553(&[0x28, 0x00]).unwrap();
    assert_eq!(m.message_type, MessageType::ModeCode);
    assert!(m.data_words.is_empty());
    let odd = parse_mil_std_1553(&[0x28, 0x43, 0x01, 0x02, 0x03]).unwrap();
    assert_eq!(odd.data_words.len(), 1);
}

#[test]
fn legacy_parse_caps_data_words_at_thirty_two() {
    let mut data = vec![0x28, 0x43];
    data.extend(std::iter::repeat(0xAB).take(2 * 40));
    let m = parse_mil_std_1553(&data).unwrap();
    assert_eq!(m.data_words.len(), 32);
}

#[test]
fn command_word_survives_serialization() {
    for w in [0u16, 1, 0x2843, 0x0C00, 0x7FFF, 0xFFFF, 0x0420] {
        for kind in [MessageType::BcToRt, MessageType::RtToBc, MessageType::ModeCode] {
            let m = Mil1553Message::new(kind, Word::new(w), Some(Word::new(0x1800)), vec![Word::new(7)]);
            let parsed = parse_mil_std_1553(&m.to_bytes()).unwrap();
            assert_eq!(parsed.command_word.value(), w);
        }
    }
}

#[test]
fn legacy_normalization() {
    let m = parse_mil_std_1553(&[0x28, 0x43, 0xDE, 0xAD, 0xBE, 0xEF]).unwrap();
    assert_eq!(m.remote_terminal_address, 5);
    let c = m.to_common_format().unwrap();
    assert_eq!(c.metadata.source_address, "BC");
    assert_eq!(c.metadata.destination_address, "RT5");
    assert!(c.metadata.is_command);
    assert!(c.metadata.requires_response);
    assert_eq!(c.priority, 2);
    assert_eq!(c.payload, vec![0xDE, 0xAD, 0xBE, 0xEF]);
    assert_eq!(c.source_protocol, ProtocolType::MilStd1553);
    assert_eq!(c.target_protocol, Some(ProtocolType::EthernetIp));
    assert_eq!(c.metadata.message_id, (m.timestamp << 16) | (5 << 8) | 2);

    let rt = Mil1553Message::new(MessageType::RtToBc, Word::new(0xFC41), None, vec![]).to_common();
    assert_eq!(rt.metadata.source_address, "RT31");
    assert_eq!(rt.metadata.destination_address, "BC");
    assert!(!rt.metadata.is_command);
    assert!(!rt.metadata.requires_response);

    let rr = Mil1553Message::new(MessageType::RtToRt, Word::new(0x5041), Some(Word::new(0x6000)), vec![]).to_common();
    assert_eq!(rr.metadata.source_address, "RT12");
    assert_eq!(rr.metadata.destination_address, "RT10");
    let unknown = Mil1553Message::new(MessageType::RtToRt, Word::new(0x5041), None, vec![]).to_common();
    assert_eq!(unknown.metadata.source_address, "UNKNOWN");
}

#[test]
fn validate_words() {
    assert!(validate_command_word(0x2843));
    assert!(!validate_command_word(0x2840));
    assert!(validate_command_word(0xF840));
    assert!(validate_status_word(0x1800));
    assert!(!validate_status_word(0x1A00));
}

fn ip_packet_bytes(command: u8, payload: &[u8]) -> Vec<u8> {
    let mut data = Vec::new();
    data.push(command);
    data.push(0);
    let length: u16 = 24 + payload.len() as u16;
    data.extend_from_slice(&length.to_be_bytes());
    data.extend_from_slice(&0x12345678u32.to_be_bytes());
    data.extend_from_slice(&0u32.to_be_bytes());
    data.extend_from_slice(&[1, 2, 3, 4, 5, 6, 7, 8]);
    data.extend_from_slice(&0u32.to_be_bytes());
    data.extend_from_slice(payload);
    data
}

#[test]
fn test_parse_ethernet_ip() {
    let data = ip_packet_bytes(0x6F, &[0xDE, 0xAD, 0xBE, 0xEF]);
    let packet = parse_ethernet_ip(&data).unwrap();
    assert_eq!(packet.command, CommandType::SendRRData);
    assert_eq!(packet.session_handle, 0x12345678);
    assert_eq!(packet.status, 0);
    assert_eq!(packet.sender_context, [1, 2, 3, 4, 5, 6, 7, 8]);
    assert_eq!(packet.options, 0);
    assert_eq!(packet.data, vec![0xDE, 0xAD, 0xBE, 0xEF]);
}

#[test]
fn test_validate_ethernet_ip() {
    let mut valid_data = Vec::new();
    valid_data.push(0x6F);
    valid_data.push(0);
    valid_data.extend_from_slice(&(24u16).to_be_bytes());
    valid_data.extend_from_slice(&[0; 20]);
    assert!(validate_ethernet_ip(&valid_data));
    let mut invalid_cmd = valid_data.clone();
    invalid_cmd[0] = 0xFF;
    assert!(!validate_ethernet_ip(&invalid_cmd));
    let mut invalid_len = valid_data.clone();
    invalid_len[2..4].copy_from_slice(&(10u16).to_be_bytes());
    assert!(!validate_ethernet_ip(&invalid_len));
    let short_data = vec![0; 10];
    assert!(!validate_ethernet_ip(&short_data));
}

#[test]
fn ip_parse_too_short() {
    assert!(parse_ethernet_ip(&[0u8; 23]).is_err());
    assert!(parse_ethernet_ip(&[0u8; 24]).unwrap().data.is_empty());
}

#[test]
fn command_bytes_round_trip() {
    for v in 0..=255u8 {
        assert_eq!(CommandType::from_u8(v).as_u8(), v);
    }
    assert_eq!(CommandType::from_u8(0x70), CommandType::SendUnitData);
    assert_eq!(CommandType::from_u8(0x42), CommandType::Custom(0x42));
}

#[test]
fn packet_round_trip() {
    for cmd in [CommandType::ListIdentity, CommandType::SendUnitData, CommandType::Custom(0x42)] {
        let p = EthernetIpPacket::new(
            cmd,
            0xCAFEBABE,
            7,
            [9, 8, 7, 6, 5, 4, 3, 2],
            0x01020304,
            vec![1, 2, 3, 4, 5],
            "a".to_string(),
            "b".to_string(),
        );
        let bytes = p.to_bytes();
        assert_eq!(bytes.len(), 29);
        assert_eq!(&bytes[2..4], &[0, 29]);
        let q = parse_ethernet_ip(&bytes).unwrap();
        assert_eq!(q.command, p.command);
        assert_eq!(q.session_handle, p.session_handle);
        assert_eq!(q.status, p.status);
        assert_eq!(q.sender_context, p.sender_context);
        assert_eq!(q.options, p.options);
        assert_eq!(q.data, p.data);
    }
}

#[test]
fn ip_normalization_unit_data() {
    let packet = parse_ethernet_ip(&ip_packet_bytes(0x70, &[0xDE, 0xAD, 0xBE, 0xEF])).unwrap();
    let c = packet.to_common_format().unwrap();
    assert!(!c.metadata.is_command);
    assert!(!c.metadata.requires_response);
    assert_eq!(c.priority, 3);
    assert_eq!(c.metadata.source_address, "192.168.1.100");
    assert_eq!(c.metadata.destination_address, "192.168.1.200");
    assert_eq!(c.metadata.message_id, (packet.timestamp << 32) | 0x12345678);
    let cmd = parse_ethernet_ip(&ip_packet_bytes(0x66, &[])).unwrap().to_common();
    assert!(cmd.metadata.is_command);
    assert!(cmd.metadata.requires_response);
    assert_eq!(cmd.priority, 1);
}

fn message(dest: &str, src: &str, payload: Vec<u8>, is_command: bool, requires_response: bool) -> CommonMessage {
    CommonMessage {
        source_protocol: ProtocolType::EthernetIp,
        target_protocol: Some(ProtocolType::MilStd1553),
        priority: 3,
        payload,
        metadata: MessageMetadata {
            source_address: src.to_string(),
            destination_address: dest.to_string(),
            timestamp: 1,
            message_id: 2,
            is_command,
            requires_response,
        },
    }
}

#[test]
fn legacy_format_from_common() {
    let h = Mil1553Handler::new();
    let out = h.format(&message("RT7", "192.168.1.100", vec![0xDE, 0xAD, 0xBE], false, false)).unwrap();
    assert_eq!(out, vec![0x38, 0x22, 0xDE, 0xAD, 0xBE, 0x00]);
    let out = h.format(&message("host", "RT3", vec![], true, true)).unwrap();
    assert_eq!(out, vec![0x0C, 0x20]);
    let out = h.format(&message("RT+40", "BC", vec![1, 2], true, true)).unwrap();
    assert_eq!(out, vec![0x40, 0x21, 1, 2]);
    assert_eq!(h.protocol_type(), ProtocolType::MilStd1553);
}

#[test]
fn ip_format_from_common() {
    let h = EthernetIpHandler::new();
    let out = h.format(&message("RT7", "BC", vec![9], true, false)).unwrap();
    assert_eq!(out.len(), 25);
    assert_eq!(out[0], 0x70);
    assert_eq!(&out[2..8], &[0, 25, 1, 2, 3, 4]);
    assert_eq!(out[24], 9);
    let out = h.format(&message("RT7", "BC", vec![], false, false)).unwrap();
    assert_eq!(out[0], 0x0B);
    let out = h.format(&message("RT7", "BC", vec![], true, true)).unwrap();
    assert_eq!(out[0], 0x6F);
}

#[test]
fn session_handles_skip_zero() {
    let mut h = EthernetIpHandler::new();
    assert_eq!(h.next_session(), 1);
    assert_eq!(h.next_session(), 2);
}

#[test]
fn handler_factories() {
    assert_eq!(create_mil_std_1553_handler().protocol_type(), ProtocolType::MilStd1553);
    let mut ip = create_ethernet_ip_handler();
    assert_eq!(ip.protocol_type(), ProtocolType::EthernetIp);
    assert_eq!(ip.next_session(), 1);
    assert!(ip.parse(&[0u8; 24]).is_ok());
    assert!(create_mil_std_1553_handler().parse(&[0x28, 0x43]).is_ok());
}
