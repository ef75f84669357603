use rsipfix::parser::{DataRecord, DataRecordKey, DataRecordValue, MessageSet, Parser, Template};
use rsipfix::state::State;

fn template(id: u16, field_ids: &[u16]) -> Vec<u8> {
    let mut v = id.to_be_bytes().to_vec();
    v.extend_from_slice(&(field_ids.len() as u16).to_be_bytes());
    for f in field_ids {
        v.extend_from_slice(&f.to_be_bytes());
        v.extend_from_slice(&4u16.to_be_bytes());
    }
    v
}

fn set(id: u16, body: &[u8]) -> Vec<u8> {
    let mut v = id.to_be_bytes().to_vec();
    v.extend_from_slice(&((body.len() + 4) as u16).to_be_bytes());
    v.extend_from_slice(body);
    v
}

fn message(sets: &[Vec<u8>]) -> Vec<u8> {
    let body: Vec<u8> = sets.concat();
    let mut v = 10u16.to_be_bytes().to_vec();
    v.extend_from_slice(&((body.len() + 16) as u16).to_be_bytes());
    v.extend_from_slice(&[0; 12]);
    v.extend_from_slice(&body);
    v
}

#[test]
fn new_registry_is_empty() {
    let s = State::new();
    assert!(s.is_empty());
    assert_eq!(s.len(), 0);
    assert!(s.get_template(&256).is_none());
    assert!(s.get_options_template(&256).is_none());
}

#[test]
fn reinserted_template_replaces() {
    let mut s = State::new();
    let a = Template::parse_many(&template(300, &[8]));
    let b = Template::parse_many(&template(300, &[8, 12, 7]));
    s.add_templates(a);
    s.add_templates(b);
    assert_eq!(s.templates_len(), 1);
    assert_eq!(s.get_template(&300).unwrap().field_specifiers.len(), 3);
    assert_eq!(s.get_templates().len(), 1);
    assert_eq!(s.get_options_templates().len(), 0);
}

#[test]
fn registry_after_prefix_of_sets() {
    let p = Parser::new();
    let sets = vec![
        set(2, &template(300, &[8])),
        set(2, &template(301, &[12])),
        set(2, &template(300, &[8, 12])),
    ];
    let mut whole = State::new();
    p.parse_message(&mut whole, &message(&sets)).unwrap();

    let mut first = State::new();
    p.parse_message(&mut first, &message(&sets[..2])).unwrap();
    assert_eq!(first.len(), 2);
    assert_eq!(first.get_template(&300).unwrap().field_specifiers.len(), 1);
    p.parse_message(&mut first, &message(&sets[2..])).unwrap();

    assert_eq!(whole.len(), first.len());
    for id in [300u16, 301] {
        assert_eq!(
            whole.get_template(&id).unwrap().field_specifiers,
            first.get_template(&id).unwrap().field_specifiers
        );
    }
}

#[test]
fn sets_are_cut_in_order() {
    let body = [set(2, &template(300, &[8])), set(300, &[1, 2, 3, 4]), vec![0, 0]].concat();
    let sets = MessageSet::parse_many(&body);
    assert_eq!(sets.len(), 2);
    assert_eq!(sets[0].hdr.set_id, 2);
    assert_eq!(sets[1].hdr.length, 8);
    assert_eq!(sets[1].buf, &[1, 2, 3, 4]);
    assert_eq!(sets[1].length(), Some(4));
}

#[test]
fn default_parser_knows_builtins() {
    let p = Parser::default();
    let f = p.formatters();
    assert_eq!(f.len(), 1);
    assert_eq!(f.get(&0).unwrap().len(), 156);
}

#[test]
fn record_insert_replaces_same_key() {
    let mut r = DataRecord::new();
    r.insert(DataRecordKey::Unrecognized(5), DataRecordValue::U8(1));
    r.insert(DataRecordKey::Str("a".to_string()), DataRecordValue::Empty);
    r.insert(DataRecordKey::Unrecognized(5), DataRecordValue::U8(2));
    assert_eq!(r.len(), 2);
    assert_eq!(r.values[0].1, DataRecordValue::U8(2));
    assert_eq!(r.get(&DataRecordKey::Unrecognized(5)), Some(&DataRecordValue::U8(2)));
    assert_eq!(r.get(&DataRecordKey::Unrecognized(6)), None);
}
