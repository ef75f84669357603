use rsipfix::formatter::FieldDecoder;
use rsipfix::parser::{DataRecordKey, DataRecordValue, Parser};
use rsipfix::state::State;

fn field(id: u16, len: u16) -> Vec<u8> {
    let mut v = id.to_be_bytes().to_vec();
    v.extend_from_slice(&len.to_be_bytes());
    v
}

fn pen_field(id: u16, len: u16, pen: u32) -> Vec<u8> {
    let mut v = (id | 0x8000).to_be_bytes().to_vec();
    v.extend_from_slice(&len.to_be_bytes());
    v.extend_from_slice(&pen.to_be_bytes());
    v
}

fn template(id: u16, fields: &[Vec<u8>]) -> Vec<u8> {
    let mut v = id.to_be_bytes().to_vec();
    v.extend_from_slice(&(fields.len() as u16).to_be_bytes());
    for f in fields {
        v.extend_from_slice(f);
    }
    v
}

fn set(id: u16, body: &[u8]) -> Vec<u8> {
    let mut v = id.to_be_bytes().to_vec();
    v.extend_from_slice(&((body.len() + 4) as u16).to_be_bytes());
    v.extend_from_slice(body);
    v
}

fn message(sets: &[Vec<u8>]) -> Vec<u8> {
    let body: Vec<u8> = sets.concat();
    let mut v = 10u16.to_be_bytes().to_vec();
    v.extend_from_slice(&((body.len() + 16) as u16).to_be_bytes());
    v.extend_from_slice(&1479840960u32.to_be_bytes());
    v.extend_from_slice(&7u32.to_be_bytes());
    v.extend_from_slice(&0u32.to_be_bytes());
    v.extend_from_slice(&body);
    v
}

fn str_key(s: &str) -> DataRecordKey {
    DataRecordKey::Str(s.to_string())
}

// templates 500, 999, 501
fn parse_temp() -> Vec<u8> {
    let t500 = template(500, &[field(27, 16), field(28, 16), field(7, 2), field(11, 2), field(4, 1)]);
    let t999 = template(
        999,
        &[
            field(8, 4),
            field(12, 4),
            field(7, 2),
            field(11, 2),
            field(4, 1),
            field(6, 1),
            field(1, 8),
            field(2, 8),
            field(152, 8),
            field(153, 8),
            field(10, 4),
        ],
    );
    let t501 = template(501, &[field(8, 4), field(12, 4)]);
    message(&[set(2, &[t500, t999, t501].concat())])
}

fn record_999(n: u8) -> Vec<u8> {
    let mut r = vec![172, 19, 219, 50 + n, 10, 0, 0, 1];
    r.extend_from_slice(&40000u16.to_be_bytes());
    r.extend_from_slice(&53u16.to_be_bytes());
    r.extend_from_slice(&[17, 0]);
    r.extend_from_slice(&76u64.to_be_bytes());
    r.extend_from_slice(&1u64.to_be_bytes());
    r.extend_from_slice(&1479840960000u64.to_be_bytes());
    r.extend_from_slice(&1479840960376u64.to_be_bytes());
    r.extend_from_slice(&1u32.to_be_bytes());
    r
}

// data sets for templates 999, 500, 999
fn parse_data() -> Vec<u8> {
    let first: Vec<u8> = (0..10).map(record_999).collect::<Vec<_>>().concat();
    let second: Vec<u8> = (10..20).map(record_999).collect::<Vec<_>>().concat();
    let mut r500 = vec![0x20, 0x01, 0x0d, 0xb8, 0, 0, 0, 0, 0, 0, 0, 0, 0, 0, 0, 1];
    r500.extend_from_slice(&[0x20, 0x01, 0x0d, 0xb8, 0, 0, 0, 0, 0, 0, 0, 0, 0, 0, 0, 2]);
    r500.extend_from_slice(&[0x9c, 0x40, 0x01, 0xbb, 6]);
    message(&[set(999, &first), set(500, &r500), set(999, &second)])
}

// nProbe-like templates 257, 258, 259, 260
fn parse_temp_1() -> Vec<u8> {
    let pens = |from: u16, n: u16| -> Vec<Vec<u8>> {
        (from..from + n).map(|i| pen_field(i, 4, 35632)).collect()
    };
    let mut t257 = pens(2000, 30);
    t257.extend([field(8, 4), field(12, 4), field(7, 2), field(11, 2), field(4, 1)]);
    let t258 = pens(2100, 30);
    let mut t259 = pens(2200, 20);
    t259.extend([field(1, 8), field(2, 8), field(10, 4)]);
    let t260 = pens(2300, 12);
    message(&[set(
        2,
        &[template(257, &t257), template(258, &t258), template(259, &t259), template(260, &t260)]
            .concat(),
    )])
}

// nProbe-like templates 261 (DNS) and 262 (HTTP)
fn parse_temp_2() -> Vec<u8> {
    let mut t261 = vec![field(8, 4), field(12, 4), field(7, 2), field(11, 2), field(4, 1)];
    t261.extend([
        pen_field(205, 65535, 35632),
        pen_field(206, 2, 35632),
        pen_field(207, 2, 35632),
        pen_field(208, 1, 35632),
        pen_field(209, 1, 35632),
        pen_field(352, 4, 35632),
        pen_field(398, 65535, 35632),
    ]);
    t261.extend((1000..1010).map(|i| pen_field(i, 1, 35632)));
    t261.extend((1010..1029).map(|i| field(i, 1)));
    let mut t262 = vec![field(8, 4), field(12, 4), field(7, 2), field(11, 2), field(4, 1)];
    t262.extend([
        pen_field(180, 65535, 35632),
        pen_field(360, 65535, 35632),
        pen_field(181, 2, 35632),
        pen_field(361, 65535, 35632),
        pen_field(187, 65535, 35632),
    ]);
    t262.extend((1100..1108).map(|i| pen_field(i, 1, 35632)));
    t262.extend((1108..1132).map(|i| field(i, 1)));
    message(&[set(2, &[template(261, &t261), template(262, &t262)].concat())])
}

fn var(s: &str) -> Vec<u8> {
    let mut v = vec![s.len() as u8];
    v.extend_from_slice(s.as_bytes());
    v
}

fn dns_samp() -> Vec<u8> {
    let mut r = vec![10, 0, 0, 2, 8, 8, 8, 8, 0xd4, 0x31, 0, 53, 17];
    r.extend(var("asimov.vortex.data.trafficmanager.net"));
    r.extend_from_slice(&[0x12, 0x34, 0, 1, 0, 1, 0, 0, 0, 60]);
    r.extend(var("13.107.4.50"));
    r.extend(vec![0u8; 29]);
    message(&[set(261, &r)])
}

fn http_samp() -> Vec<u8> {
    let mut r = vec![10, 0, 0, 2, 93, 184, 216, 34, 0xc3, 0x50, 0, 80, 6];
    r.extend(var("/index.html"));
    r.extend(var("GET"));
    r.extend_from_slice(&200u16.to_be_bytes());
    r.extend(var("example.com"));
    r.extend(var("example.com"));
    r.extend(vec![0u8; 32]);
    message(&[set(262, &r)])
}

// shall not cause infinite loop
#[test]
fn looper_01() {
    let zero_width = template(300, &[]);
    let zero_length = template(301, &[field(8, 0), field(12, 0)]);
    let b = message(&[
        set(2, &[zero_width, zero_length].concat()),
        set(300, &[0u8; 40]),
        set(301, &[1u8; 40]),
    ]);
    let mut s = State::new();
    let p = Parser::new();
    let m = p.parse_message(&mut s, &b).unwrap();
    assert!(m.get_dataset_records().is_empty());
}

#[test]
fn test_parse() {
    // contains templates 500, 999, 501
    let template_bytes = parse_temp();

    // contains data sets for templates 999, 500, 999
    let data_bytes = parse_data();

    let mut s = State::new();
    let p = Parser::new();
    let msg = p.parse_message(&mut s, &template_bytes).unwrap();
    assert!(msg.version == 10);
    assert!(msg.sets.len() == 1);
    assert!(p.parse_message(&mut s, &template_bytes).is_ok());

    let rsipfixhdr = p.parse_message(&mut s, &data_bytes).unwrap();
    let datarecords = rsipfixhdr.get_dataset_records();
    assert!(datarecords.len() == 21);

    // Assert state mutated
    assert!(s.len() == 3);
    assert!(s.templates_len() == 3);

    // Assert data records are good
    let d0 = datarecords[0];
    assert!(d0.values.len() == 11);
    assert!(
        d0.get(&str_key("sourceIPv4Address")).unwrap()
            == &DataRecordValue::IPv4(u32::from_be_bytes([172, 19, 219, 50]))
    );
    assert!(
        d0.get(&str_key("flowEndMilliSeconds")).unwrap() == &DataRecordValue::U64(1479840960376)
    );
    assert!(d0.get(&str_key("destinationTransportPort")).unwrap() == &DataRecordValue::U16(53));
    assert!(d0.get(&str_key("protocolIdentifier")).unwrap() == &DataRecordValue::U8(17));
}

#[test]
fn test_parse_template_enterprise_fields() {
    // 257, 258, 259, 260
    let temp_1 = parse_temp_1();
    // 261, 262
    let temp_2 = parse_temp_2();

    let mut s = State::new();
    let p = Parser::new();
    let _ = p.parse_message(&mut s, &temp_1);
    let _ = p.parse_message(&mut s, &temp_2);
    // sum the number of parsed enterprise fields of the first message
    let mut enterprise_fields = 0;
    for id in 257u16..=260 {
        for fs in &s.get_template(&id).unwrap().field_specifiers {
            enterprise_fields += if fs.enterprise_number.is_some() { 1 } else { 0 };
        }
    }
    assert!(enterprise_fields == 92);
    let mut all = 0;
    for (_k, v) in s.get_templates() {
        for fs in &v.field_specifiers {
            all += if fs.enterprise_number.is_some() { 1 } else { 0 };
            assert!(fs.is_pen == fs.enterprise_number.is_some());
        }
    }
    assert!(all == 122);
}

#[test]
fn test_parse_data_variable_fields() {
    let temp_1 = parse_temp_1();
    let temp_2 = parse_temp_2();
    let d1 = dns_samp();
    let d2 = http_samp();

    let mut s = State::new();
    let mut p = Parser::new();

    // add custom fields for ntop pen
    let names: [(u16, &'static str); 39] = [
        (205, "DNS_QUERY"),
        (206, "DNS_QUERY_ID"),
        (207, "DNS_QUERY_TYPE"),
        (208, "DNS_RET_CODE"),
        (209, "DNS_NUM_ANSWERS"),
        (352, "DNS_TTL_ANSWER"),
        (398, "DNS_RESPONSE"),
        (180, "HTTP_URL"),
        (360, "HTTP_METHOD"),
        (181, "HTTP_RET_CODE"),
        (182, "HTTP_REFERER"),
        (183, "HTTP_UA"),
        (184, "HTTP_MIME"),
        (187, "HTTP_HOST"),
        (361, "HTTP_SITE"),
        (460, "HTTP_X_FORWARDED_FOR"),
        (461, "HTTP_VIA"),
        (81, "DST_FRAGMENTS"),
        (123, "CLIENT_NW_LATENCY_MS"),
        (124, "SERVER_NW_LATENCY_MS"),
        (79, "SERVER_TCP_FLAGS"),
        (110, "RETRANSMITTED_OUT_PKTS"),
        (111, "OOORDER_IN_PKTS"),
        (188, "TLS_SERVER_NAME"),
        (189, "BITTORRENT_HASH"),
        (416, "TCP_WIN_MAX_IN"),
        (80, "SRC_FRAGMENTS"),
        (78, "CLIENT_TCP_FLAGS"),
        (125, "APPL_LATENCY_MS"),
        (109, "RETRANSMITTED_IN_PKTS"),
        (420, "TCP_WIN_MAX_OUT"),
        (509, "L7_PROTO_RISK"),
        (527, "L7_RISK_SCORE"),
        (278, "GTPV2_APN_NAME"),
        (280, "GTPV2_ULI_MNC"),
        (180, "HTTP_URL"),
        (380, "RTP_RTT"),
        (112, "OOORDER_OUT_PKTS"),
        (118, "L7_PROTO"),
    ];
    for (id, name) in names {
        p.add_custom_field(35632, id, name, FieldDecoder::BeString);
    }

    let _ = p.parse_message(&mut s, &temp_1);
    let _ = p.parse_message(&mut s, &temp_2);

    let dns = p.parse_message(&mut s, &d1).unwrap();
    let records = dns.get_dataset_records();
    assert!(records.len() > 0);
    let record = records[0];
    assert!(record.values.len() == 41);
    assert!(
        record.get(&str_key("DNS_QUERY")).unwrap()
            == &DataRecordValue::String("asimov.vortex.data.trafficmanager.net".to_string())
    );

    // http
    let http = p.parse_message(&mut s, &d2).unwrap();
    let records = http.get_dataset_records();
    assert!(records.len() > 0);
    let record = records[0];
    assert!(record.values.len() == 42);
    assert!(
        record.get(&str_key("HTTP_SITE")).unwrap()
            == &DataRecordValue::String("example.com".to_string())
    );
}

#[test]
fn registry_same_whichever_message_comes_first() {
    let template_bytes = parse_temp();
    let data_bytes = parse_data();
    let p = Parser::new();

    let mut a = State::new();
    let _ = p.parse_message(&mut a, &template_bytes);
    let _ = p.parse_message(&mut a, &data_bytes);

    let mut b = State::new();
    let m = p.parse_message(&mut b, &data_bytes).unwrap();
    assert!(m.get_dataset_records().is_empty());
    let _ = p.parse_message(&mut b, &template_bytes);

    assert!(a.len() == 3 && a.templates_len() == 3);
    assert!(b.len() == 3 && b.templates_len() == 3);
}
