use shardroute::builder::ContextBuilder;
use shardroute::error::Error;
use shardroute::hasher::Hasher;
use shardroute::value::{DataType, Parsed};

#[test]
fn infers_bigint_from_digits() {
    let b = ContextBuilder::from_str("123456789").unwrap();
    assert_eq!(b.data_type, DataType::Bigint);
    let v = b.value.expect("value must be pre-populated");
    assert!(v.valid());
    assert!(matches!(v.parsed, Parsed::Int(123456789)));
    assert_eq!(b.hasher, Hasher::Postgres);
    assert!(b.operator.is_none());
}

#[test]
fn infers_uuid_from_hyphenated_hex() {
    let b = ContextBuilder::from_str("550e8400-e29b-41d4-a716-446655440000").unwrap();
    assert_eq!(b.data_type, DataType::Uuid);
    let v = b.value.expect("value must be pre-populated");
    assert!(v.valid());
    match v.parsed {
        Parsed::Uuid(u) => assert_eq!(u, 0x550e8400e29b41d4a716446655440000u128),
        other => panic!("expected a uuid parse, got {:?}", other),
    }
}

#[test]
fn rejects_unroutable_text() {
    let r = ContextBuilder::from_str("not-a-number-or-uuid");
    assert!(matches!(r, Err(Error::IncompleteContext)));
}

#[test]
fn rejects_empty_text() {
    assert!(matches!(ContextBuilder::from_str(""), Err(Error::IncompleteContext)));
}

#[test]
fn negative_integer_is_inferred() {
    let b = ContextBuilder::from_str("-7").unwrap();
    assert_eq!(b.data_type, DataType::Bigint);
    assert!(matches!(b.value.unwrap().parsed, Parsed::Int(-7)));
}

#[test]
fn uppercase_uuid_is_inferred() {
    let b = ContextBuilder::from_str("550E8400-E29B-41D4-A716-446655440000").unwrap();
    assert_eq!(b.data_type, DataType::Uuid);
}

#[test]
fn inferred_builder_still_needs_shards() {
    let r = ContextBuilder::from_str("123456789").unwrap().build();
    assert!(matches!(r, Err(Error::IncompleteContext)));
}
