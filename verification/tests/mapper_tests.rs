use ebus::catalog::{Catalog, Circuit, FieldDef, FieldValue, MessageDef, RequestMatch};
use ebus::crc8::checksum_of;
use ebus::deframer::EbusData;
use ebus::mapper::{extract_record, matches_request, Mapper, MessageMatch};
use ebus::parser::EbusParser;
use ebus::telegram::Telegram;

fn field(name: &str, offset: u64, data_type: &str, factor: f64) -> FieldDef {
    FieldDef {
        field_name: name.to_string(),
        field_offset: offset,
        data_type: data_type.to_string(),
        factor_bits: factor.to_bits(),
        unit: "C".to_string(),
    }
}

fn message(
    patterns: (&str, &str, &str, &str),
    request_map: Option<Vec<FieldDef>>,
    response_map: Option<Vec<FieldDef>>,
) -> MessageDef {
    MessageDef {
        comment: String::new(),
        request_match: RequestMatch {
            src: patterns.0.to_string(),
            dst: patterns.1.to_string(),
            pbsb: patterns.2.to_string(),
            data: patterns.3.to_string(),
        },
        request_map,
        response_map,
    }
}

fn catalog(circuits: Vec<Vec<MessageDef>>) -> Catalog {
    Catalog {
        appliance: "boiler".to_string(),
        bus: "ebus".to_string(),
        circuits: circuits
            .into_iter()
            .enumerate()
            .map(|(i, messages)| Circuit { name: format!("circuit{}", i), messages })
            .collect(),
    }
}

/// A telegram as the parser delivers it for the given halves.
fn telegram(header: [u8; 4], payload: &[u8], response: Option<&[u8]>) -> Telegram {
    let mut bytes = vec![0xaa];
    bytes.extend_from_slice(&header);
    bytes.push(payload.len() as u8);
    bytes.extend_from_slice(payload);
    bytes.push(checksum_of(&bytes[1..]));
    bytes.push(0x00);
    match response {
        Some(data) => {
            let start = bytes.len();
            bytes.push(data.len() as u8);
            bytes.extend_from_slice(data);
            bytes.push(checksum_of(&bytes[start..]));
            bytes.push(0x00);
        }
        None => bytes.push(0xaa),
    }
    let buffer: Vec<EbusData> = bytes.iter().map(|b| EbusData::PureByte(*b)).collect();
    let mut parser = EbusParser::new();
    let mut telegrams = parser.parse_protocol_buffer(&buffer);
    assert_eq!(telegrams.len(), 1);
    telegrams.remove(0)
}

fn entries(m: &MessageMatch) -> Option<Vec<(String, FieldValue)>> {
    m.record.as_ref().map(|r| r.fields().iter().map(|f| (f.name.clone(), f.value)).collect())
}

fn run(mapper: &Mapper, t: &Telegram) -> Vec<(usize, usize, Option<Vec<(String, FieldValue)>>)> {
    mapper
        .received_telegram(t.request(), t.response())
        .iter()
        .map(|m| (m.circuit, m.message, entries(m)))
        .collect()
}

#[test]
fn request_fields_are_matched_as_rendered() {
    let t = telegram([0x10, 0x08, 0xb5, 0x09], &[0x0d, 0x2a, 0x00], None);
    assert!(matches_request(&message(("10", "8", "B509", "0D2A00"), None, None), t.request()));
    assert!(matches_request(&message(("*", "*", "*", "*"), None, None), t.request()));
    assert!(matches_request(&message(("1*", "^", "^B5", "0D**00"), None, None), t.request()));
    assert!(!matches_request(&message(("10", "08", "B509", "0D2A00"), None, None), t.request()));
    assert!(!matches_request(&message(("11", "8", "B509", "0D2A00"), None, None), t.request()));
    assert!(!matches_request(&message(("10", "9", "B509", "0D2A00"), None, None), t.request()));
    assert!(!matches_request(&message(("10", "8", "B50A", "0D2A00"), None, None), t.request()));
    assert!(!matches_request(&message(("10", "8", "B509", "0D2A01"), None, None), t.request()));
    assert!(!matches_request(&message(("10", "8", "b509", "0d2a00"), None, None), t.request()));
}

#[test]
fn every_matching_definition_is_reported_in_catalog_order() {
    let mapper = Mapper::new(catalog(vec![
        vec![
            message(("*", "*", "*", "*"), None, None),
            message(("11", "*", "*", "*"), None, None),
            message(("10", "*", "^B5", "*"), None, None),
        ],
        vec![],
        vec![
            message(("*", "9", "*", "*"), None, None),
            message(("*", "8", "*", "^0D"), None, None),
        ],
    ]));
    let t = telegram([0x10, 0x08, 0xb5, 0x09], &[0x0d, 0x2a, 0x00], None);
    assert_eq!(run(&mapper, &t), vec![(0, 0, None), (0, 2, None), (2, 1, None)]);
}

#[test]
fn no_definition_matches() {
    let mapper = Mapper::new(catalog(vec![vec![message(("11", "*", "*", "*"), None, None)]]));
    let t = telegram([0x10, 0x08, 0xb5, 0x09], &[], None);
    assert_eq!(run(&mapper, &t), vec![]);
    let empty = Mapper::new(catalog(vec![]));
    assert_eq!(run(&empty, &t), vec![]);
}

#[test]
fn response_map_is_preferred_when_a_response_exists() {
    let def = message(
        ("*", "*", "*", "*"),
        Some(vec![field("from_request", 0, "u8", 1.0)]),
        Some(vec![field("from_response", 0, "u16le", 1.0)]),
    );
    let mapper = Mapper::new(catalog(vec![vec![def]]));
    let t = telegram([0x10, 0x08, 0xb5, 0x09], &[0x64], Some(&[0x10, 0x00]));
    assert_eq!(
        run(&mapper, &t),
        vec![(0, 0, Some(vec![("from_response".to_string(), FieldValue::Integer(16))]))]
    );
}

#[test]
fn request_map_is_used_when_no_response_exists() {
    let def = message(
        ("*", "*", "*", "*"),
        Some(vec![field("from_request", 0, "u8", 0.5)]),
        Some(vec![field("from_response", 0, "u16le", 1.0)]),
    );
    let mapper = Mapper::new(catalog(vec![vec![def]]));
    let t = telegram([0x10, 0x08, 0xb5, 0x09], &[0x64], None);
    let out = run(&mapper, &t);
    assert_eq!(
        out,
        vec![(
            0,
            0,
            Some(vec![(
                "from_request".to_string(),
                FieldValue::Scaled { raw: 100, factor_bits: 0.5f64.to_bits() }
            )])
        )]
    );
}

#[test]
fn request_map_is_used_when_definition_has_no_response_map() {
    let def = message(("*", "*", "*", "*"), Some(vec![field("x", 1, "u8", 1.0)]), None);
    let mapper = Mapper::new(catalog(vec![vec![def]]));
    let t = telegram([0x10, 0x08, 0xb5, 0x09], &[0x01, 0x02], Some(&[0x09]));
    assert_eq!(
        run(&mapper, &t),
        vec![(0, 0, Some(vec![("x".to_string(), FieldValue::Integer(2))]))]
    );
}

#[test]
fn match_without_applicable_map_has_no_record() {
    let only_response = message(("*", "*", "*", "*"), None, Some(vec![field("x", 0, "u8", 1.0)]));
    let mapper = Mapper::new(catalog(vec![vec![only_response]]));
    let t = telegram([0x10, 0x08, 0xb5, 0x09], &[0x01], None);
    assert_eq!(run(&mapper, &t), vec![(0, 0, None)]);
}

#[test]
fn unsupported_field_does_not_stop_extraction() {
    let def = message(
        ("*", "*", "*", "*"),
        None,
        Some(vec![
            field("a", 0, "u8", 1.0),
            field("b", 0, "bcd", 1.0),
            field("c", 1, "u16he", 1.0),
        ]),
    );
    let later = message(("*", "*", "*", "*"), Some(vec![field("d", 0, "u8", 1.0)]), None);
    let mapper = Mapper::new(catalog(vec![vec![def, later]]));
    let t = telegram([0x10, 0x08, 0xb5, 0x09], &[0x05], Some(&[0x01, 0x02, 0x03]));
    assert_eq!(
        run(&mapper, &t),
        vec![
            (
                0,
                0,
                Some(vec![
                    ("a".to_string(), FieldValue::Integer(1)),
                    ("c".to_string(), FieldValue::Integer(0x0203)),
                ])
            ),
            (0, 1, Some(vec![("d".to_string(), FieldValue::Integer(5))])),
        ]
    );
}

#[test]
fn extract_record_follows_the_same_preference() {
    let def = message(
        ("*", "*", "*", "*"),
        Some(vec![field("q", 0, "u8", 1.0)]),
        Some(vec![field("r", 0, "u8", 1.0)]),
    );
    let with = telegram([0x10, 0x08, 0xb5, 0x09], &[0x01], Some(&[0x02]));
    let record = extract_record(&def, with.request(), with.response()).unwrap();
    assert_eq!(record.get("r"), Some(FieldValue::Integer(2)));
    assert_eq!(record.get("q"), None);
    let record = extract_record(&def, with.request(), None).unwrap();
    assert_eq!(record.get("q"), Some(FieldValue::Integer(1)));
    let none = message(("*", "*", "*", "*"), None, None);
    assert!(extract_record(&none, with.request(), with.response()).is_none());
}

#[test]
fn mapper_keeps_its_catalog() {
    let mapper = Mapper::new(catalog(vec![vec![message(("*", "*", "*", "*"), None, None)]]));
    assert_eq!(mapper.defs().appliance, "boiler");
    assert_eq!(mapper.defs().bus, "ebus");
    assert_eq!(mapper.defs().circuits.len(), 1);
    assert_eq!(mapper.defs().circuits[0].name, "circuit0");
}
