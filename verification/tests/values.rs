use shardroute::value::{DataType, Parsed, Value};

fn parse(raw: &[u8], dt: DataType) -> Value {
    Value::new(raw.to_vec(), dt)
}

#[test]
fn bigint_parses_plain_digits() {
    let v = parse(b"42", DataType::Bigint);
    assert!(v.valid());
    assert!(matches!(v.parsed, Parsed::Int(42)));
}

#[test]
fn bigint_parses_extremes() {
    let max = parse(b"9223372036854775807", DataType::Bigint);
    assert!(matches!(max.parsed, Parsed::Int(i64::MAX)));
    let min = parse(b"-9223372036854775808", DataType::Bigint);
    assert!(matches!(min.parsed, Parsed::Int(i64::MIN)));
}

#[test]
fn bigint_rejects_overflow() {
    assert!(!parse(b"9223372036854775808", DataType::Bigint).valid());
    assert!(!parse(b"-9223372036854775809", DataType::Bigint).valid());
    assert!(!parse(b"99999999999999999999", DataType::Bigint).valid());
}

#[test]
fn bigint_accepts_leading_zeros() {
    let v = parse(b"007", DataType::Bigint);
    assert!(matches!(v.parsed, Parsed::Int(7)));
}

#[test]
fn bigint_rejects_junk() {
    assert!(!parse(b"", DataType::Bigint).valid());
    assert!(!parse(b"-", DataType::Bigint).valid());
    assert!(!parse(b"12a", DataType::Bigint).valid());
    assert!(!parse(b"+12", DataType::Bigint).valid());
    assert!(!parse(b"1 2", DataType::Bigint).valid());
    assert!(!parse(b"east", DataType::Bigint).valid());
}

#[test]
fn negative_zero_parses_to_zero() {
    let v = parse(b"-0", DataType::Bigint);
    assert!(matches!(v.parsed, Parsed::Int(0)));
}

#[test]
fn uuid_parses_canonical_form() {
    let v = parse(b"550e8400-e29b-41d4-a716-446655440000", DataType::Uuid);
    assert!(v.valid());
    match v.parsed {
        Parsed::Uuid(u) => assert_eq!(u, 0x550e8400e29b41d4a716446655440000u128),
        other => panic!("expected a uuid parse, got {:?}", other),
    }
}

#[test]
fn uuid_parses_all_zero_and_all_f() {
    let z = parse(b"00000000-0000-0000-0000-000000000000", DataType::Uuid);
    assert!(matches!(z.parsed, Parsed::Uuid(0)));
    let f = parse(b"ffffffff-ffff-ffff-ffff-ffffffffffff", DataType::Uuid);
    assert!(matches!(f.parsed, Parsed::Uuid(u128::MAX)));
}

#[test]
fn uuid_rejects_malformed_text() {
    // wrong length
    assert!(!parse(b"550e8400-e29b-41d4-a716-44665544000", DataType::Uuid).valid());
    // hyphen out of place
    assert!(!parse(b"550e84000e29b-41d4-a716-446655440000", DataType::Uuid).valid());
    // non-hex digit
    assert!(!parse(b"550e8400-e29b-41d4-a716-44665544000g", DataType::Uuid).valid());
    // no hyphens at all
    assert!(!parse(b"550e8400e29b41d4a716446655440000xxxx", DataType::Uuid).valid());
}

#[test]
fn text_values_are_always_valid() {
    assert!(parse(b"anything at all", DataType::Text).valid());
    assert!(parse(b"", DataType::Text).valid());
}

#[test]
fn vector_type_is_never_parsed_from_raw() {
    assert!(!parse(b"[1,2,3]", DataType::Vector).valid());
}

#[test]
fn vector_values_come_prebuilt() {
    let v = Value::from_vector(vec![1, -2, 3]);
    assert!(v.valid());
    assert_eq!(v.data_type, DataType::Vector);
    match v.parsed {
        Parsed::Vector(ref xs) => assert_eq!(xs, &vec![1, -2, 3]),
        ref other => panic!("expected a vector, got {:?}", other),
    }
}
