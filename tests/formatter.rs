use rsipfix::formatter::{
    be_int, be_string, get_default_parsers, iana_field, ipv4_addr, ipv6_addr, mpls_stack,
    FieldDecoder,
};
use rsipfix::parser::DataRecordValue;

#[test]
fn be_int_picks_width() {
    assert_eq!(be_int(&[0x2a]), DataRecordValue::U8(42));
    assert_eq!(be_int(&[0x01, 0x02]), DataRecordValue::U16(258));
    assert_eq!(be_int(&[0, 0, 0x01, 0xbb]), DataRecordValue::U32(443));
    assert_eq!(be_int(&1479840960376u64.to_be_bytes()), DataRecordValue::U64(1479840960376));
    assert_eq!(be_int(&[1, 2, 3]), DataRecordValue::Bytes(&[1, 2, 3]));
    assert_eq!(be_int(&[]), DataRecordValue::Bytes(&[]));
}

#[test]
fn integers_round_trip() {
    for x in [0u8, 1, 200, 255] {
        assert_eq!(be_int(&x.to_be_bytes()), DataRecordValue::U8(x));
    }
    for x in [0u16, 53, 0xffff] {
        assert_eq!(be_int(&x.to_be_bytes()), DataRecordValue::U16(x));
    }
    for x in [0u32, 0xdead_beef, u32::MAX] {
        assert_eq!(be_int(&x.to_be_bytes()), DataRecordValue::U32(x));
    }
    for x in [0u64, 1479840960376, u64::MAX] {
        assert_eq!(be_int(&x.to_be_bytes()), DataRecordValue::U64(x));
    }
}

#[test]
fn addresses_round_trip() {
    let v4 = u32::from_be_bytes([172, 19, 219, 50]);
    assert_eq!(ipv4_addr(&v4.to_be_bytes()), DataRecordValue::IPv4(v4));
    let v6 = 0x2001_0db8_0000_0000_0000_0000_0000_0001u128;
    assert_eq!(ipv6_addr(&v6.to_be_bytes()), DataRecordValue::IPv6(v6));
}

#[test]
fn short_addresses_stay_bytes() {
    assert_eq!(ipv4_addr(&[10, 0, 0]), DataRecordValue::Bytes(&[10, 0, 0]));
    assert_eq!(ipv6_addr(&[0; 15]), DataRecordValue::Bytes(&[0; 15]));
}

#[test]
fn address_uses_first_bytes_of_longer_input() {
    assert_eq!(ipv4_addr(&[10, 0, 0, 1, 99]), DataRecordValue::IPv4(0x0a00_0001));
}

#[test]
fn be_string_reads_utf8() {
    assert_eq!(be_string(b"example.com"), DataRecordValue::String("example.com".to_string()));
    assert_eq!(be_string(&[]), DataRecordValue::String(String::new()));
}

#[test]
fn be_string_replaces_invalid_utf8() {
    assert_eq!(
        be_string(&[0x61, 0xff, 0x62]),
        DataRecordValue::String("a\u{FFFD}b".to_string())
    );
}

#[test]
fn mpls_reads_all_24_bits() {
    let label: u32 = 0x12345;
    let exp: u8 = 5;
    let bottom: u8 = 1;
    let v = label * 16 + (exp as u32) * 2 + bottom as u32;
    let b = &v.to_be_bytes()[1..];
    assert_eq!(b, &[0x12, 0x34, 0x5b]);
    assert_eq!(mpls_stack(b), DataRecordValue::MPLS(label, exp, bottom));
    assert_eq!(mpls_stack(&[0xff, 0xff, 0xff]), DataRecordValue::MPLS(0xfffff, 7, 1));
}

#[test]
fn mpls_short_entry_is_an_error() {
    assert_eq!(
        mpls_stack(&[1, 2]),
        DataRecordValue::Error("mpls stack entry shorter than 3 bytes".to_string(), &[1, 2])
    );
}

#[test]
fn decoder_dispatch() {
    let b = [0, 0, 0, 7];
    assert_eq!(FieldDecoder::BeInt.decode(&b), DataRecordValue::U32(7));
    assert_eq!(FieldDecoder::Ipv4Addr.decode(&b), DataRecordValue::IPv4(7));
    assert_eq!(FieldDecoder::Ipv6Addr.decode(&b), DataRecordValue::Bytes(&b));
    assert_eq!(
        FieldDecoder::BeString.decode(b"ok"),
        DataRecordValue::String("ok".to_string())
    );
    assert_eq!(FieldDecoder::MplsStack.decode(&b), DataRecordValue::MPLS(0, 0, 0));
}

#[test]
fn iana_table() {
    assert_eq!(iana_field(8), Some(("sourceIPv4Address", FieldDecoder::Ipv4Addr)));
    assert_eq!(iana_field(153), Some(("flowEndMilliSeconds", FieldDecoder::BeInt)));
    assert_eq!(iana_field(70), Some(("mplsTopLabelStackEntry", FieldDecoder::MplsStack)));
    assert_eq!(iana_field(214), Some(("mplsPayloadLength", FieldDecoder::BeInt)));
    assert_eq!(iana_field(3), None);
    assert_eq!(iana_field(215), None);
    let d = get_default_parsers();
    assert_eq!(d.len(), 156);
    assert_eq!(d.get(&27), Some(&("sourceIPv6Address", FieldDecoder::Ipv6Addr)));
}
