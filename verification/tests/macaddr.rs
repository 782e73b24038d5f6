use rte::mac_addr::MacAddr;

#[test]
fn test_macaddr() {
    let addr = MacAddr::new(0x18, 0x2b, 0x3c, 0x4d, 0x5e, 0x6f);

    assert_eq!(addr.octets(), [0x18, 0x2b, 0x3c, 0x4d, 0x5e, 0x6f]);
    assert_eq!(addr.to_string(), "18:2b:3c:4d:5e:6f");

    assert_eq!(addr, MacAddr::from([0x18, 0x2b, 0x3c, 0x4d, 0x5e, 0x6f]));
    assert_eq!(addr, MacAddr::from_str("18:2b:3c:4d:5e:6f").unwrap());

    MacAddr::from_str("18:2b:3c:4d:5e:6f:XX").unwrap_err();

    assert!(!addr.is_zero());
    assert!(MacAddr::zeroed().is_zero());
}

#[test]
fn parse_accepts_upper_case_digits() {
    let addr = MacAddr::from_str("FF:00:1A:2B:3C:4D").unwrap();
    assert_eq!(addr.octets(), [0xff, 0x00, 0x1a, 0x2b, 0x3c, 0x4d]);
}

#[test]
fn parse_accepts_short_and_signed_parts() {
    // each part goes through the native integer parser: one digit is
    // enough, a leading plus is tolerated, and a minus only for zero
    let addr = MacAddr::from_str("0:1:+2:3:-0:f").unwrap();
    assert_eq!(addr.octets(), [0, 1, 2, 3, 0, 0x0f]);
}

#[test]
fn parse_rejects_malformed_strings() {
    MacAddr::from_str("").unwrap_err();
    MacAddr::from_str("18:2b:3c:4d:5e").unwrap_err();
    MacAddr::from_str("18:2b:3c:4d:5e:6f:00").unwrap_err();
    MacAddr::from_str("18:2b:3c:4d:5e:").unwrap_err();
    MacAddr::from_str("100:00:00:00:00:00").unwrap_err();
    MacAddr::from_str("-1:00:00:00:00:00").unwrap_err();
    MacAddr::from_str("0x1:00:00:00:00:00").unwrap_err();
    MacAddr::from_str("18:2b:3c:4d:5e:+").unwrap_err();
}

#[test]
fn formats_every_octet_with_two_digits() {
    let addr = MacAddr::new(0x00, 0x09, 0x0a, 0x10, 0xa0, 0xff);
    assert_eq!(addr.to_string(), "00:09:0a:10:a0:ff");
}

#[test]
fn format_then_parse_round_trips() {
    let addrs = [
        MacAddr::zeroed(),
        MacAddr::new(0xff, 0xff, 0xff, 0xff, 0xff, 0xff),
        MacAddr::new(0x01, 0x23, 0x45, 0x67, 0x89, 0xab),
    ];
    for addr in addrs {
        assert_eq!(MacAddr::from_str(&addr.to_string()).unwrap(), addr);
    }
}

#[test]
fn from_bytes_needs_exactly_six() {
    assert!(MacAddr::from_bytes(&[1, 2, 3, 4, 5]).is_err());
    assert!(MacAddr::from_bytes(&[1, 2, 3, 4, 5, 6, 7]).is_err());
    let addr = MacAddr::from_bytes(&[1, 2, 3, 4, 5, 6]).unwrap();
    assert_eq!(addr.octets(), [1, 2, 3, 4, 5, 6]);
}
