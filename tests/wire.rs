use rsipfix::formatter::FieldDecoder;
use rsipfix::parser::{
    DataRecordKey, DataRecordValue, DataSet, FieldSpecifier, Message, MessageSet,
    OptionsTemplate, ParseError, Parser, SetType, Template,
};
use rsipfix::state::State;

fn field(id: u16, len: u16) -> Vec<u8> {
    let mut v = id.to_be_bytes().to_vec();
    v.extend_from_slice(&len.to_be_bytes());
    v
}

fn pen_field(id: u16, len: u16, pen: u32) -> Vec<u8> {
    let mut v = (id | 0x8000).to_be_bytes().to_vec();
    v.extend_from_slice(&len.to_be_bytes());
    v.extend_from_slice(&pen.to_be_bytes());
    v
}

fn template(id: u16, fields: &[Vec<u8>]) -> Vec<u8> {
    let mut v = id.to_be_bytes().to_vec();
    v.extend_from_slice(&(fields.len() as u16).to_be_bytes());
    for f in fields {
        v.extend_from_slice(f);
    }
    v
}

fn set(id: u16, body: &[u8]) -> Vec<u8> {
    let mut v = id.to_be_bytes().to_vec();
    v.extend_from_slice(&((body.len() + 4) as u16).to_be_bytes());
    v.extend_from_slice(body);
    v
}

fn message(sets: &[Vec<u8>]) -> Vec<u8> {
    let body: Vec<u8> = sets.concat();
    let mut v = 10u16.to_be_bytes().to_vec();
    v.extend_from_slice(&((body.len() + 16) as u16).to_be_bytes());
    v.extend_from_slice(&1_700_000_000u32.to_be_bytes());
    v.extend_from_slice(&42u32.to_be_bytes());
    v.extend_from_slice(&9u32.to_be_bytes());
    v.extend_from_slice(&body);
    v
}

fn key(s: &str) -> DataRecordKey {
    DataRecordKey::Str(s.to_string())
}

#[test]
fn header_fields_are_read() {
    let b = message(&[]);
    let (rest, m) = Message::parse(&b).unwrap();
    assert!(rest.is_empty());
    assert_eq!(m.version, 10);
    assert_eq!(m.length, 16);
    assert_eq!(m.export_time, 1_700_000_000);
    assert_eq!(m.sequence_number, 42);
    assert_eq!(m.observation_domain_id, 9);
    assert!(m.sets.is_empty());
}

#[test]
fn short_header_is_bad_header() {
    let p = Parser::new();
    let mut s = State::new();
    let b = message(&[]);
    assert_eq!(p.parse_message(&mut s, &b[..15]).unwrap_err(), ParseError::BadHeader);
}

#[test]
fn wrong_version_is_bad_header() {
    let p = Parser::new();
    let mut s = State::new();
    let mut b = message(&[set(2, &template(300, &[field(8, 4)]))]);
    b[1] = 9;
    assert_eq!(p.parse_message(&mut s, &b).unwrap_err(), ParseError::BadHeader);
    assert!(s.is_empty());
}

#[test]
fn truncated_set_is_refused() {
    let mut b = set(300, &[1, 2, 3, 4]);
    assert!(MessageSet::parse(&b).is_ok());
    b.truncate(7);
    assert_eq!(MessageSet::parse(&b).unwrap_err(), ParseError::TruncatedSet);
    assert_eq!(MessageSet::parse(&[0, 2, 0, 3]).unwrap_err(), ParseError::TruncatedSet);
    assert_eq!(MessageSet::parse(&[0, 2]).unwrap_err(), ParseError::TruncatedSet);
}

#[test]
fn truncated_set_ends_the_message() {
    let p = Parser::new();
    let mut s = State::new();
    let mut body = set(2, &template(300, &[field(8, 4)]));
    body.extend_from_slice(&[1, 44, 0, 200, 1, 2, 3]);
    let b = message(&[body]);
    let m = p.parse_message(&mut s, &b).unwrap();
    assert_eq!(m.sets.len(), 1);
    assert_eq!(m.sets[0].stype, SetType::Template);
    assert_eq!(s.templates_len(), 1);
}

#[test]
fn set_kinds() {
    assert_eq!(SetType::from(2), SetType::Template);
    assert_eq!(SetType::from(3), SetType::OptionTemplate);
    assert_eq!(SetType::from(4), SetType::DataSet);
    assert_eq!(SetType::from(256), SetType::DataSet);
}

#[test]
fn field_specifier_forms() {
    let (f, n) = FieldSpecifier::parse(&field(8, 4)).unwrap();
    assert_eq!(n, 4);
    assert_eq!((f.ident, f.field_length, f.enterprise_number), (8, 4, None));
    assert!(!f.is_pen && !f.is_variable);
    let (f, n) = FieldSpecifier::parse(&pen_field(205, 65535, 35632)).unwrap();
    assert_eq!(n, 8);
    assert_eq!((f.ident, f.field_length, f.enterprise_number), (205, 65535, Some(35632)));
    assert_eq!(f.temp_ident, 205 | 0x8000);
    assert!(f.is_pen && f.is_variable);
    assert!(FieldSpecifier::parse(&pen_field(205, 4, 1)[..6]).is_none());
}

#[test]
fn templates_stop_at_first_undecodable() {
    let mut body = template(300, &[field(8, 4), pen_field(1, 2, 9)]);
    body.extend(template(301, &[field(12, 4)]));
    body.extend_from_slice(&[1, 46, 0, 5, 0, 8]);
    let ts = Template::parse_many(&body);
    assert_eq!(ts.len(), 2);
    assert_eq!(ts[0].header.template_id, 300);
    assert_eq!(ts[0].field_specifiers.len(), 2);
    assert_eq!(ts[1].header.field_count, 1);
}

#[test]
fn options_template_data_is_decoded() {
    let mut ot = 400u16.to_be_bytes().to_vec();
    ot.extend_from_slice(&2u16.to_be_bytes());
    ot.extend_from_slice(&1u16.to_be_bytes());
    ot.extend(field(144, 4));
    ot.extend(field(41, 8));
    let opts = OptionsTemplate::parse_many(&ot);
    assert_eq!(opts.len(), 1);
    assert_eq!(opts[0].header.scope_field_count, 1);

    let mut data = 7u32.to_be_bytes().to_vec();
    data.extend_from_slice(&99u64.to_be_bytes());
    let b = message(&[set(3, &ot), set(400, &data)]);
    let p = Parser::new();
    let mut s = State::new();
    let m = p.parse_message(&mut s, &b).unwrap();
    assert_eq!(s.options_templates_len(), 1);
    assert_eq!(s.templates_len(), 0);
    assert_eq!(s.len(), 1);
    let r = m.get_dataset_records();
    assert_eq!(r.len(), 1);
    assert_eq!(r[0].get(&key("exportingProcessId")), Some(&DataRecordValue::U32(7)));
    assert_eq!(r[0].get(&key("exportedMessageTotalCount")), Some(&DataRecordValue::U64(99)));
}

#[test]
fn unknown_template_gives_no_records() {
    let p = Parser::new();
    let mut s = State::new();
    let b = message(&[set(777, &[1, 2, 3, 4]), set(2, &template(300, &[field(4, 1)]))]);
    let m = p.parse_message(&mut s, &b).unwrap();
    assert_eq!(m.sets.len(), 2);
    assert!(m.sets[0].data.is_empty());
    assert!(m.get_dataset_records().is_empty());
    assert_eq!(s.len(), 1);

    let lone_bytes = set(777, &[1]);
    let (_, mut lone) = MessageSet::parse(&lone_bytes).unwrap();
    assert_eq!(
        lone.process_set_body(p.formatters(), &mut s),
        Err(ParseError::UnknownTemplate)
    );
}

#[test]
fn fixed_width_record_count() {
    let p = Parser::new();
    let mut s = State::new();
    let b = message(&[set(2, &template(300, &[field(7, 2), field(11, 2), field(4, 2)]))]);
    p.parse_message(&mut s, &b).unwrap();
    let data: Vec<u8> = (0u8..20).collect();
    let data = message(&[set(300, &data)]);
    let m = p.parse_message(&mut s, &data).unwrap();
    let r = m.get_dataset_records();
    assert_eq!(r.len(), 3);
    assert_eq!(r[0].get(&key("sourceTransportPort")), Some(&DataRecordValue::U16(0x0001)));
    assert_eq!(r[2].get(&key("protocolIdentifier")), Some(&DataRecordValue::U16(0x1011)));
}

#[test]
fn variable_length_forms() {
    let mut long = vec![255u8, 0x01, 0x2c];
    long.extend(vec![b'x'; 300]);
    let (v, n) = DataSet::take_field(&long, 65535).unwrap();
    assert_eq!(n, 303);
    assert_eq!(v.len(), 300);
    let (v, n) = DataSet::take_field(&[3, b'a', b'b', b'c', 9], 65535).unwrap();
    assert_eq!((v, n), (&b"abc"[..], 4));
    assert!(DataSet::take_field(&[5, 1, 2], 65535).is_none());
    assert!(DataSet::take_field(&[255, 0], 65535).is_none());
    assert_eq!(DataSet::take_field(&[1, 2, 3], 2).unwrap(), (&[1u8, 2][..], 2));
    assert!(DataSet::take_field(&[1], 2).is_none());
}

#[test]
fn partial_record_is_dropped() {
    let p = Parser::new();
    let mut s = State::new();
    let b = message(&[set(2, &template(300, &[field(7, 2), field(11, 2)]))]);
    p.parse_message(&mut s, &b).unwrap();
    let data = message(&[set(300, &[0, 1, 0, 2, 0, 3])]);
    let m = p.parse_message(&mut s, &data).unwrap();
    assert_eq!(m.get_dataset_records().len(), 1);
}

#[test]
fn unknown_pen_and_unknown_field() {
    let p = Parser::new();
    let mut s = State::new();
    let b = message(&[set(2, &template(300, &[pen_field(3, 1, 9), field(999, 2)]))]);
    p.parse_message(&mut s, &b).unwrap();
    let data = message(&[set(300, &[7, 0xab, 0xcd])]);
    let m = p.parse_message(&mut s, &data).unwrap();
    let r = m.get_dataset_records();
    assert_eq!(r.len(), 1);
    let err = DataRecordKey::Error("unsupported pen 9 when trying to parse field 3".to_string());
    assert_eq!(r[0].get(&err), Some(&DataRecordValue::Empty));
    assert_eq!(
        r[0].get(&DataRecordKey::Unrecognized(999)),
        Some(&DataRecordValue::Bytes(&[0xab, 0xcd]))
    );
    assert_eq!(r[0].len(), 2);
}

#[test]
fn custom_formatter_wins_over_builtin() {
    let mut p = Parser::new();
    p.add_custom_field(0, 8, "src", FieldDecoder::BeInt);
    let mut s = State::new();
    let b = message(&[set(2, &template(300, &[field(8, 4)]))]);
    p.parse_message(&mut s, &b).unwrap();
    let data = message(&[set(300, &[0, 0, 1, 0])]);
    let m = p.parse_message(&mut s, &data).unwrap();
    let r = m.get_dataset_records();
    assert_eq!(r[0].get(&key("src")), Some(&DataRecordValue::U32(256)));
    assert_eq!(r[0].get(&key("sourceIPv4Address")), None);
}

#[test]
fn repeated_field_keeps_last_value() {
    let p = Parser::new();
    let mut s = State::new();
    let b = message(&[set(2, &template(300, &[field(4, 1), field(4, 1)]))]);
    p.parse_message(&mut s, &b).unwrap();
    let data = message(&[set(300, &[6, 17])]);
    let m = p.parse_message(&mut s, &data).unwrap();
    let r = m.get_dataset_records();
    assert_eq!(r[0].len(), 1);
    assert_eq!(r[0].get(&key("protocolIdentifier")), Some(&DataRecordValue::U8(17)));
}
