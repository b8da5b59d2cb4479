use ebus::catalog::{
    decode_field, parse_data_type, read_raw, DataType, FieldDef, FieldError, FieldValue,
    FACTOR_ONE_BITS,
};
use ebus::record::DecodedRecord;

fn field(name: &str, offset: u64, data_type: &str, factor: f64) -> FieldDef {
    FieldDef {
        field_name: name.to_string(),
        field_offset: offset,
        data_type: data_type.to_string(),
        factor_bits: factor.to_bits(),
        unit: String::new(),
    }
}

/// The number that a field value stands for.
fn number(value: FieldValue) -> f64 {
    match value {
        FieldValue::Integer(raw) => raw as f64,
        FieldValue::Scaled { raw, factor_bits } => raw as f64 * f64::from_bits(factor_bits),
    }
}

#[test]
fn factor_one_bits_is_one() {
    assert_eq!(FACTOR_ONE_BITS, 1.0f64.to_bits());
    assert_eq!(f64::from_bits(FACTOR_ONE_BITS), 1.0);
}

#[test]
fn data_type_names() {
    assert_eq!(parse_data_type("u8"), Some(DataType::U8));
    assert_eq!(parse_data_type("u16le"), Some(DataType::U16Le));
    assert_eq!(parse_data_type("u16he"), Some(DataType::U16Be));
    assert_eq!(parse_data_type("u16be"), None);
    assert_eq!(parse_data_type("U8"), None);
    assert_eq!(parse_data_type("i8"), None);
    assert_eq!(parse_data_type(""), None);
    assert_eq!(parse_data_type("u16"), None);
}

#[test]
fn read_raw_u8() {
    assert_eq!(read_raw(DataType::U8, &[0x64], 0), Some(0x64));
    assert_eq!(read_raw(DataType::U8, &[0x01, 0xff], 1), Some(0xff));
    assert_eq!(read_raw(DataType::U8, &[0x01, 0xff], 2), None);
    assert_eq!(read_raw(DataType::U8, &[], 0), None);
}

#[test]
fn read_raw_u16_little_endian() {
    assert_eq!(read_raw(DataType::U16Le, &[0x10, 0x00], 0), Some(16));
    assert_eq!(read_raw(DataType::U16Le, &[0x34, 0x12], 0), Some(0x1234));
    assert_eq!(read_raw(DataType::U16Le, &[0x00, 0xff, 0xff], 1), Some(0xffff));
    assert_eq!(read_raw(DataType::U16Le, &[0x34, 0x12], 1), None);
    assert_eq!(read_raw(DataType::U16Le, &[0x34, 0x12], 2), None);
}

#[test]
fn read_raw_u16_big_endian() {
    assert_eq!(read_raw(DataType::U16Be, &[0x10, 0x00], 0), Some(0x1000));
    assert_eq!(read_raw(DataType::U16Be, &[0x34, 0x12], 0), Some(0x3412));
    assert_eq!(read_raw(DataType::U16Be, &[0x00, 0x12, 0x34], 1), Some(0x1234));
    assert_eq!(read_raw(DataType::U16Be, &[0x34], 0), None);
}

#[test]
fn read_raw_with_huge_offset() {
    assert_eq!(read_raw(DataType::U8, &[0x01], u64::MAX), None);
    assert_eq!(read_raw(DataType::U16Le, &[0x01, 0x02], u64::MAX), None);
    assert_eq!(read_raw(DataType::U16Be, &[0x01, 0x02], u64::MAX - 1), None);
}

#[test]
fn field_decode_u8_with_factor_one_half() {
    let value = decode_field(&field("t", 0, "u8", 0.5), &[0x64]).unwrap();
    assert_eq!(value, FieldValue::Scaled { raw: 100, factor_bits: 0x3fe0_0000_0000_0000 });
    assert_eq!(number(value), 50.0);
}

#[test]
fn field_decode_u16le_with_factor_one() {
    let value = decode_field(&field("t", 0, "u16le", 1.0), &[0x10, 0x00]).unwrap();
    assert_eq!(value, FieldValue::Integer(16));
    assert_eq!(number(value), 16.0);
}

#[test]
fn field_decode_u16he_with_factor_one_tenth() {
    let value = decode_field(&field("t", 1, "u16he", 0.1), &[0x00, 0x01, 0x2c]).unwrap();
    assert_eq!(value, FieldValue::Scaled { raw: 300, factor_bits: 0.1f64.to_bits() });
    assert_eq!(number(value), 300.0 * 0.1);
}

#[test]
fn field_decode_unsupported_type() {
    assert_eq!(
        decode_field(&field("t", 0, "f32", 1.0), &[0x64]),
        Err(FieldError::UnsupportedType)
    );
    assert_eq!(
        decode_field(&field("t", 9, "f32", 1.0), &[0x64]),
        Err(FieldError::UnsupportedType)
    );
}

#[test]
fn field_decode_out_of_range() {
    assert_eq!(decode_field(&field("t", 1, "u8", 1.0), &[0x64]), Err(FieldError::OutOfRange));
    assert_eq!(decode_field(&field("t", 0, "u16le", 1.0), &[0x64]), Err(FieldError::OutOfRange));
    assert_eq!(decode_field(&field("t", 0, "u16he", 0.5), &[]), Err(FieldError::OutOfRange));
}

#[test]
fn record_keeps_insertion_order() {
    let mut record = DecodedRecord::new();
    assert_eq!(record.len(), 0);
    record.insert("zeta".to_string(), FieldValue::Integer(1));
    record.insert("alpha".to_string(), FieldValue::Integer(2));
    record.insert("mid".to_string(), FieldValue::Integer(3));
    let names: Vec<&str> = record.fields().iter().map(|f| f.name.as_str()).collect();
    assert_eq!(names, vec!["zeta", "alpha", "mid"]);
    assert_eq!(record.len(), 3);
}

#[test]
fn record_insert_replaces_in_place() {
    let mut record = DecodedRecord::new();
    record.insert("a".to_string(), FieldValue::Integer(1));
    record.insert("b".to_string(), FieldValue::Integer(2));
    record.insert("a".to_string(), FieldValue::Integer(7));
    let entries: Vec<(&str, FieldValue)> =
        record.fields().iter().map(|f| (f.name.as_str(), f.value)).collect();
    assert_eq!(entries, vec![("a", FieldValue::Integer(7)), ("b", FieldValue::Integer(2))]);
}

#[test]
fn record_get_finds_by_name() {
    let mut record = DecodedRecord::new();
    record.insert("a".to_string(), FieldValue::Integer(1));
    record.insert("b".to_string(), FieldValue::Scaled { raw: 2, factor_bits: 5 });
    assert_eq!(record.get("a"), Some(FieldValue::Integer(1)));
    assert_eq!(record.get("b"), Some(FieldValue::Scaled { raw: 2, factor_bits: 5 }));
    assert_eq!(record.get("c"), None);
    assert_eq!(record.get(""), None);
}

#[test]
fn record_decode_skips_fields_without_value() {
    let map = vec![
        field("first", 0, "u8", 1.0),
        field("odd", 0, "s32", 1.0),
        field("beyond", 7, "u8", 1.0),
        field("second", 1, "u16le", 0.5),
        field("third", 1, "u16he", 1.0),
    ];
    let record = DecodedRecord::decode(&map, &[0x64, 0x10, 0x00]);
    let entries: Vec<(&str, FieldValue)> =
        record.fields().iter().map(|f| (f.name.as_str(), f.value)).collect();
    assert_eq!(
        entries,
        vec![
            ("first", FieldValue::Integer(100)),
            ("second", FieldValue::Scaled { raw: 16, factor_bits: 0.5f64.to_bits() }),
            ("third", FieldValue::Integer(0x1000)),
        ]
    );
}

#[test]
fn record_decode_with_repeated_name_keeps_last_value_at_first_place() {
    let map = vec![
        field("t", 0, "u8", 1.0),
        field("other", 1, "u8", 1.0),
        field("t", 2, "u8", 1.0),
    ];
    let record = DecodedRecord::decode(&map, &[1, 2, 3]);
    let entries: Vec<(&str, FieldValue)> =
        record.fields().iter().map(|f| (f.name.as_str(), f.value)).collect();
    assert_eq!(entries, vec![("t", FieldValue::Integer(3)), ("other", FieldValue::Integer(2))]);
}

#[test]
fn record_decode_of_empty_map_is_empty() {
    let record = DecodedRecord::decode(&vec![], &[1, 2, 3]);
    assert_eq!(record.len(), 0);
    assert!(record.fields().is_empty());
}
