use dsdl_parser::crc::CRC64WE;

#[test]
fn crc_test_crc_algorithm() {
    let mut crc1 = CRC64WE::new();
    crc1.add(b"123456789");
    assert_eq!(crc1.value(), 0x62ec59e3f1a4f00a);

    let mut crc2 = CRC64WE::new();
    crc2.add(b"123");
    crc2.add("456789".as_bytes());
    assert_eq!(crc2.value(), 0x62EC59E3F1A4F00A);
}

#[test]
fn calc_signature() {
    let mut crc = CRC64WE::new();
    crc.add(b"uavcan.protocol.NodeStatus
saturated uint32 uptime_sec
saturated uint2 health
saturated uint3 mode
saturated uint3 sub_mode
saturated uint16 vendor_specific_status_code");
    assert_eq!(crc.value(), 0x0f0868d0c1a7c6f1);
}

#[test]
fn signature_test_crc_algorithm() {
    let mut crc = CRC64WE::new();
    crc.add(b"123456789");
    assert_eq!(crc.value(), 0x62ec59e3f1a4f00a);
}

#[test]
fn new_crc_reports_zero() {
    assert_eq!(CRC64WE::new().value(), 0);
}

#[test]
fn adding_nothing_changes_nothing() {
    let mut crc = CRC64WE::new();
    crc.add(b"abc");
    let before = crc.value();
    crc.add(b"");
    assert_eq!(crc.value(), before);
}

#[test]
fn add_in_pieces_equals_add_at_once() {
    let text = b"saturated uint32 uptime_sec";
    for cut in 0..text.len() {
        let mut whole = CRC64WE::new();
        whole.add(text);
        let mut parts = CRC64WE::new();
        parts.add(&text[..cut]);
        parts.add(&text[cut..]);
        assert_eq!(whole.value(), parts.value());
    }
}

#[test]
fn from_value_gives_the_value_back() {
    for v in [0u64, 1, 0x0f0868d0c1a7c6f1, u64::MAX, 0x8000_0000_0000_0000] {
        assert_eq!(CRC64WE::from_value(v).value(), v);
    }
}

#[test]
fn from_value_continues_a_hash() {
    let mut whole = CRC64WE::new();
    whole.add(b"123456789");
    let mut first = CRC64WE::new();
    first.add(b"1234");
    let mut resumed = CRC64WE::from_value(first.value());
    resumed.add(b"56789");
    assert_eq!(resumed.value(), whole.value());
}

#[test]
fn extend_adds_the_signature_bytes_then_the_value() {
    let sig: u64 = 0x0f0868d0c1a7c6f1;
    let mut a = CRC64WE::from_value(0x1122334455667788);
    let before = a.value();
    a.extend(sig);
    let mut b = CRC64WE::from_value(0x1122334455667788);
    b.add(&sig.to_le_bytes());
    b.add(&before.to_le_bytes());
    assert_eq!(a.value(), b.value());
    assert_ne!(a.value(), before);
}
