use secret::attributes::{decode, encode, AttributeValue, Attributes};
use secret::decimal::{format_i64, parse_i64};
use secret::error::Error;
use secret::schema::{Schema, SchemaAttributeType};

fn number_schema() -> Schema {
    Schema::new(
        "org.example.Password",
        vec![
            ("number".to_string(), SchemaAttributeType::Integer),
            ("string".to_string(), SchemaAttributeType::String),
            ("even".to_string(), SchemaAttributeType::Boolean),
        ],
    )
    .unwrap()
}

fn pairs(v: &[(&str, &str)]) -> Vec<(String, String)> {
    v.iter().map(|(k, x)| (k.to_string(), x.to_string())).collect()
}

#[test]
fn format_and_parse_integers() {
    assert_eq!(format_i64(0), "0");
    assert_eq!(format_i64(8), "8");
    assert_eq!(format_i64(-42), "-42");
    assert_eq!(format_i64(i64::MAX), "9223372036854775807");
    assert_eq!(format_i64(i64::MIN), "-9223372036854775808");
    assert_eq!(parse_i64("8"), Some(8));
    assert_eq!(parse_i64("-42"), Some(-42));
    assert_eq!(parse_i64("007"), Some(7));
    assert_eq!(parse_i64("-9223372036854775808"), Some(i64::MIN));
    assert_eq!(parse_i64("9223372036854775807"), Some(i64::MAX));
    assert_eq!(parse_i64("9223372036854775808"), None);
    assert_eq!(parse_i64("-9223372036854775809"), None);
    assert_eq!(parse_i64("99999999999999999999999"), None);
    assert_eq!(parse_i64(""), None);
    assert_eq!(parse_i64("-"), None);
    assert_eq!(parse_i64("1a"), None);
    assert_eq!(parse_i64("+1"), None);
}

#[test]
fn encode_uses_type_appropriate_text() {
    let schema = number_schema();
    let mut a = Attributes::new();
    a.insert("number".to_string(), AttributeValue::Integer(8));
    a.insert("string".to_string(), AttributeValue::String("eight".to_string()));
    a.insert("even".to_string(), AttributeValue::Boolean(true));
    let n = encode(&schema, &a).unwrap();
    assert_eq!(n, pairs(&[("number", "8"), ("string", "eight"), ("even", "1")]));
}

#[test]
fn decode_of_encode_round_trips() {
    let schema = number_schema();
    let mut a = Attributes::new();
    a.insert("even".to_string(), AttributeValue::Boolean(false));
    a.insert("number".to_string(), AttributeValue::Integer(-1234567));
    a.insert("string".to_string(), AttributeValue::String("huit".to_string()));
    let n = encode(&schema, &a).unwrap();
    let b = decode(&schema, &n).unwrap();
    assert_eq!(b.len(), 3);
    for i in 0..a.len() {
        assert_eq!(a.entry(i), b.entry(i));
    }
}

#[test]
fn encode_rejects_undeclared_key() {
    let schema = number_schema();
    let mut a = Attributes::new();
    a.insert("number".to_string(), AttributeValue::Integer(8));
    a.insert("colour".to_string(), AttributeValue::String("red".to_string()));
    assert_eq!(encode(&schema, &a), Err(Error::SchemaMismatch));
}

#[test]
fn encode_rejects_value_of_other_type() {
    let schema = number_schema();
    let mut a = Attributes::new();
    a.insert("number".to_string(), AttributeValue::Boolean(true));
    assert_eq!(encode(&schema, &a), Err(Error::SchemaMismatch));
}

#[test]
fn decode_rejects_malformed_payload() {
    let schema = number_schema();
    assert_eq!(decode(&schema, &pairs(&[("number", "eight")])).err(), Some(Error::DecodeError));
    assert_eq!(decode(&schema, &pairs(&[("even", "true")])).err(), Some(Error::DecodeError));
    assert_eq!(decode(&schema, &pairs(&[("colour", "red")])).err(), Some(Error::DecodeError));
    assert_eq!(
        decode(&schema, &pairs(&[("number", "1"), ("number", "2")])).err(),
        Some(Error::DecodeError)
    );
    let ok = decode(&schema, &pairs(&[("even", "0"), ("number", "-3")])).unwrap();
    assert_eq!(ok.entry(0).1, &AttributeValue::Boolean(false));
    assert_eq!(ok.entry(1).1, &AttributeValue::Integer(-3));
}

#[test]
fn insert_replaces_existing_key() {
    let mut a = Attributes::new();
    a.insert("number".to_string(), AttributeValue::Integer(8));
    a.insert("even".to_string(), AttributeValue::Boolean(true));
    a.insert("number".to_string(), AttributeValue::Integer(9));
    assert_eq!(a.len(), 2);
    assert_eq!(a.get(&"number".to_string()), Some(&AttributeValue::Integer(9)));
    assert_eq!(a.entry(0).0, "number");
    assert_eq!(a.get(&"string".to_string()), None);
}

#[test]
fn schema_rejects_bad_input() {
    assert_eq!(Schema::new("", vec![]).err(), Some(Error::InvalidSchema));
    assert_eq!(Schema::new("a\0b", vec![]).err(), Some(Error::InvalidSchema));
    let dup = vec![
        ("n".to_string(), SchemaAttributeType::Integer),
        ("n".to_string(), SchemaAttributeType::String),
    ];
    assert_eq!(Schema::new("org.example", dup).err(), Some(Error::InvalidSchema));
    let empty_key = vec![("".to_string(), SchemaAttributeType::Integer)];
    assert_eq!(Schema::new("org.example", empty_key).err(), Some(Error::InvalidSchema));
    let s = Schema::new("org.example", vec![]).unwrap();
    assert_eq!(s.name(), "org.example");
    assert_eq!(s.attribute_types().len(), 0);
    let t = number_schema();
    assert_eq!(t.attribute_type(&"even".to_string()), Some(SchemaAttributeType::Boolean));
    assert_eq!(t.attribute_type(&"odd".to_string()), None);
}

#[test]
fn round_trip_of_extreme_values() {
    let schema = number_schema();
    for v in [i64::MIN, -1, 0, 1, i64::MAX] {
        let mut a = Attributes::new();
        a.insert("number".to_string(), AttributeValue::Integer(v));
        a.insert("string".to_string(), AttributeValue::String("été – ∞".to_string()));
        a.insert("even".to_string(), AttributeValue::Boolean(v % 2 == 0));
        let n = encode(&schema, &a).unwrap();
        assert_eq!(n[0].1, v.to_string());
        assert_eq!(n[1].1, "été – ∞");
        let b = decode(&schema, &n).unwrap();
        for i in 0..a.len() {
            assert_eq!(a.entry(i), b.entry(i));
        }
    }
}

#[test]
fn schema_without_attributes_takes_no_attribute() {
    let schema = Schema::new("org.example.Empty", vec![]).unwrap();
    let empty = Attributes::new();
    assert_eq!(encode(&schema, &empty), Ok(vec![]));
    assert_eq!(decode(&schema, &vec![]).map(|a| a.len()), Ok(0));
    let mut one = Attributes::new();
    one.insert("number".to_string(), AttributeValue::Integer(1));
    assert_eq!(encode(&schema, &one), Err(Error::SchemaMismatch));
}
