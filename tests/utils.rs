use secure_gateway::utils::{
    bytes_to_hex, format_byte_size, generate_unique_id, hex_to_bytes, is_in_range, unique_id_from,
};

#[test]
fn test_bytes_to_hex() {
    let bytes = vec![0x12, 0x34, 0xAB, 0xCD];
    let hex = bytes_to_hex(&bytes);
    assert_eq!(hex, "1234abcd");
}

#[test]
fn test_hex_to_bytes() {
    let hex = "1234abcd";
    let bytes = hex_to_bytes(hex).unwrap();
    assert_eq!(bytes, vec![0x12, 0x34, 0xAB, 0xCD]);
}

#[test]
fn test_hex_to_bytes_invalid() {
    let result = hex_to_bytes("123");
    assert!(result.is_err());
    let result = hex_to_bytes("123G");
    assert!(result.is_err());
}

#[test]
fn hex_round_trip_and_cases() {
    assert_eq!(bytes_to_hex(&[]), "");
    assert_eq!(bytes_to_hex(&[0x00, 0xff, 0x0a]), "00ff0a");
    assert_eq!(hex_to_bytes("00FFa0").unwrap(), vec![0x00, 0xff, 0xa0]);
    assert_eq!(hex_to_bytes("").unwrap(), Vec::<u8>::new());
}

#[test]
fn test_generate_unique_id() {
    let id1 = generate_unique_id();
    let id2 = generate_unique_id();
    assert_ne!(id1, id2);
}

#[test]
fn unique_id_layout() {
    assert_eq!(unique_id_from(1, 2), 0x10002);
    assert_eq!(unique_id_from(0xffff_ffff_ffff_ffff, 0), 0xffff_ffff_ffff_0000);
}

#[test]
fn test_format_byte_size() {
    assert_eq!(format_byte_size(0), "0 B");
    assert_eq!(format_byte_size(1023), "1023.00 B");
    assert_eq!(format_byte_size(1024), "1.00 KB");
    assert_eq!(format_byte_size(1048576), "1.00 MB");
    assert_eq!(format_byte_size(1073741824), "1.00 GB");
}

#[test]
fn format_byte_size_rounding() {
    assert_eq!(format_byte_size(1536), "1.50 KB");
    assert_eq!(format_byte_size(1152), "1.12 KB");
    assert_eq!(format_byte_size(1029), "1.00 KB");
    assert_eq!(format_byte_size(1048575), "1024.00 KB");
    assert_eq!(format_byte_size(1099511627776), "1.00 TB");
    assert_eq!(format_byte_size(5 * 1099511627776 * 1024), "5120.00 TB");
}

#[test]
fn test_is_in_range() {
    assert!(is_in_range(5, 1, 10));
    assert!(is_in_range(1, 1, 10));
    assert!(is_in_range(10, 1, 10));
    assert!(!is_in_range(0, 1, 10));
    assert!(!is_in_range(11, 1, 10));
    assert!(is_in_range(5.5, 1.0, 10.0));
    assert!(!is_in_range(10.1, 1.0, 10.0));
}
