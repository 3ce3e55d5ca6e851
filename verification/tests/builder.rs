use shardroute::builder::ContextBuilder;
use shardroute::centroids::Centroid;
use shardroute::config::{Mapping, ShardedTable};
use shardroute::error::Error;
use shardroute::hasher::Hasher;
use shardroute::lists::ListEntry;
use shardroute::operator::Operator;
use shardroute::ranges::RangeEntry;
use shardroute::value::DataType;

fn range_mapping() -> Option<Mapping> {
    Some(Mapping::Range(vec![
        RangeEntry { bound: 0, shard: 0 },
        RangeEntry { bound: 100, shard: 1 },
        RangeEntry { bound: 200, shard: 2 },
    ]))
}

fn list_mapping() -> Option<Mapping> {
    Some(Mapping::List(vec![
        ListEntry { key: b"east".to_vec(), shard: 0 },
        ListEntry { key: b"west".to_vec(), shard: 1 },
    ]))
}

fn centroid_pair() -> Vec<Centroid> {
    vec![
        Centroid { vector: vec![0, 0], shard: 3 },
        Centroid { vector: vec![100, 100], shard: 7 },
    ]
}

#[test]
fn centroids_take_priority_over_mappings() {
    // Centroids and a range mapping both present: centroids must win.
    let table = ShardedTable {
        data_type: DataType::Vector,
        centroids: centroid_pair(),
        centroid_probes: 2,
        hasher: Hasher::Postgres,
        mapping: range_mapping(),
    };
    let ctx = ContextBuilder::new(&table)
        .shards(4)
        .data(b"ignored".to_vec())
        .build()
        .unwrap();
    match &ctx.operator {
        Operator::Centroids { shards, probes, centroids } => {
            assert_eq!(*shards, 4);
            assert_eq!(*probes, 2);
            assert_eq!(centroids.entries.len(), 2);
        }
        other => panic!("expected centroid operator, got {:?}", other),
    }
}

#[test]
fn centroids_take_priority_over_list_mapping() {
    let table = ShardedTable {
        data_type: DataType::Vector,
        centroids: centroid_pair(),
        centroid_probes: 1,
        hasher: Hasher::Postgres,
        mapping: list_mapping(),
    };
    let ctx = ContextBuilder::new(&table)
        .shards(2)
        .data(b"x".to_vec())
        .build()
        .unwrap();
    assert!(matches!(ctx.operator, Operator::Centroids { .. }));
}

#[test]
fn range_selected_without_centroids() {
    let table = ShardedTable {
        data_type: DataType::Bigint,
        centroids: vec![],
        centroid_probes: 0,
        hasher: Hasher::Postgres,
        mapping: range_mapping(),
    };
    let ctx = ContextBuilder::new(&table)
        .shards(3)
        .data(b"150".to_vec())
        .build()
        .unwrap();
    assert!(matches!(ctx.operator, Operator::Range(_)));
}

#[test]
fn list_selected_without_centroids_or_ranges() {
    let table = ShardedTable {
        data_type: DataType::Text,
        centroids: vec![],
        centroid_probes: 0,
        hasher: Hasher::Postgres,
        mapping: list_mapping(),
    };
    let ctx = ContextBuilder::new(&table)
        .shards(2)
        .data(b"east".to_vec())
        .build()
        .unwrap();
    assert!(matches!(ctx.operator, Operator::List(_)));
}

#[test]
fn uniform_selected_with_no_structures() {
    let table = ShardedTable {
        data_type: DataType::Bigint,
        centroids: vec![],
        centroid_probes: 0,
        hasher: Hasher::Postgres,
        mapping: None,
    };
    let ctx = ContextBuilder::new(&table)
        .shards(8)
        .data(b"42".to_vec())
        .build()
        .unwrap();
    assert!(matches!(ctx.operator, Operator::Shards(8)));
}

#[test]
fn build_fails_without_shards() {
    // A value was supplied but `shards` was never called.
    let table = ShardedTable {
        data_type: DataType::Bigint,
        centroids: vec![],
        centroid_probes: 0,
        hasher: Hasher::Postgres,
        mapping: None,
    };
    let r = ContextBuilder::new(&table).data(b"42".to_vec()).build();
    match r {
        Err(e) => assert_eq!(e, Error::IncompleteContext),
        Ok(_) => panic!("build must fail without an operator"),
    }
}

#[test]
fn build_fails_without_value() {
    // `shards` was called but no value was ever supplied.
    let table = ShardedTable {
        data_type: DataType::Bigint,
        centroids: vec![],
        centroid_probes: 0,
        hasher: Hasher::Postgres,
        mapping: None,
    };
    let r = ContextBuilder::new(&table).shards(4).build();
    match r {
        Err(e) => assert_eq!(e, Error::IncompleteContext),
        Ok(_) => panic!("build must fail without a value"),
    }
}

#[test]
fn build_fails_with_neither() {
    let table = ShardedTable {
        data_type: DataType::Bigint,
        centroids: vec![],
        centroid_probes: 0,
        hasher: Hasher::Postgres,
        mapping: None,
    };
    let r = ContextBuilder::new(&table).build();
    assert!(matches!(r, Err(Error::IncompleteContext)));
}

#[test]
fn hasher_is_copied_from_descriptor() {
    let table = ShardedTable {
        data_type: DataType::Bigint,
        centroids: vec![],
        centroid_probes: 0,
        hasher: Hasher::Sha1,
        mapping: None,
    };
    let ctx = ContextBuilder::new(&table)
        .shards(2)
        .data(b"9".to_vec())
        .build()
        .unwrap();
    assert_eq!(ctx.hasher, Hasher::Sha1);
}

#[test]
fn later_value_overwrites_earlier() {
    let table = ShardedTable {
        data_type: DataType::Bigint,
        centroids: vec![],
        centroid_probes: 0,
        hasher: Hasher::Postgres,
        mapping: None,
    };
    let ctx = ContextBuilder::new(&table)
        .shards(2)
        .data(b"1".to_vec())
        .data(b"2".to_vec())
        .build()
        .unwrap();
    assert_eq!(ctx.value.raw, b"2".to_vec());
}
