use shardroute::builder::ContextBuilder;
use shardroute::centroids::{Centroid, Shard};
use shardroute::config::{Mapping, ShardedTable};
use shardroute::error::Error;
use shardroute::hasher::Hasher;
use shardroute::lists::ListEntry;
use shardroute::ranges::RangeEntry;
use shardroute::value::{DataType, Value};

fn range_table() -> ShardedTable {
    ShardedTable {
        data_type: DataType::Bigint,
        centroids: vec![],
        centroid_probes: 0,
        hasher: Hasher::Postgres,
        mapping: Some(Mapping::Range(vec![
            RangeEntry { bound: 0, shard: 0 },
            RangeEntry { bound: 100, shard: 1 },
            RangeEntry { bound: 200, shard: 2 },
        ])),
    }
}

fn list_table() -> ShardedTable {
    ShardedTable {
        data_type: DataType::Text,
        centroids: vec![],
        centroid_probes: 0,
        hasher: Hasher::Postgres,
        mapping: Some(Mapping::List(vec![
            ListEntry { key: b"east".to_vec(), shard: 0 },
            ListEntry { key: b"west".to_vec(), shard: 1 },
        ])),
    }
}

fn centroid_table(probes: usize, shard_a: usize, shard_b: usize) -> ShardedTable {
    ShardedTable {
        data_type: DataType::Vector,
        centroids: vec![
            Centroid { vector: vec![0, 0], shard: shard_a },
            Centroid { vector: vec![100, 100], shard: shard_b },
        ],
        centroid_probes: probes,
        hasher: Hasher::Postgres,
        mapping: None,
    }
}

fn resolve_range(key: &[u8]) -> Result<Shard, Error> {
    ContextBuilder::new(&range_table())
        .shards(3)
        .data(key.to_vec())
        .build()
        .unwrap()
        .resolve()
}

fn resolve_list(key: &[u8]) -> Result<Shard, Error> {
    ContextBuilder::new(&list_table())
        .shards(2)
        .data(key.to_vec())
        .build()
        .unwrap()
        .resolve()
}

fn resolve_centroids(table: &ShardedTable, query: Vec<i32>) -> Result<Shard, Error> {
    ContextBuilder::new(table)
        .shards(8)
        .value(Value::from_vector(query))
        .build()
        .unwrap()
        .resolve()
}

#[test]
fn uniform_hash_routes_by_digest_mod_count() {
    let ctx = ContextBuilder::from_str("42")
        .unwrap()
        .shards(4)
        .build()
        .unwrap();
    let expected = (Hasher::Postgres.digest(&b"42".to_vec()) % 4) as usize;
    assert_eq!(ctx.resolve(), Ok(Shard::Direct(expected)));
}

#[test]
fn range_key_routes_to_greatest_lower_bound() {
    assert_eq!(resolve_range(b"150"), Ok(Shard::Direct(1)));
    assert_eq!(resolve_range(b"0"), Ok(Shard::Direct(0)));
    assert_eq!(resolve_range(b"99"), Ok(Shard::Direct(0)));
    assert_eq!(resolve_range(b"200"), Ok(Shard::Direct(2)));
    assert_eq!(resolve_range(b"100000"), Ok(Shard::Direct(2)));
}

#[test]
fn range_key_below_all_bounds_is_a_miss() {
    assert_eq!(resolve_range(b"-5"), Err(Error::NoRangeMatch));
}

#[test]
fn list_key_routes_by_exact_match() {
    assert_eq!(resolve_list(b"east"), Ok(Shard::Direct(0)));
    assert_eq!(resolve_list(b"west"), Ok(Shard::Direct(1)));
}

#[test]
fn list_key_without_entry_is_a_miss() {
    assert_eq!(resolve_list(b"north"), Err(Error::NoListMatch));
}

#[test]
fn single_probe_routes_to_nearest_centroid() {
    let table = centroid_table(1, 3, 7);
    // Nearer the first centroid: always its shard, never the other's.
    assert_eq!(resolve_centroids(&table, vec![1, 1]), Ok(Shard::Direct(3)));
    // Nearer the second.
    assert_eq!(resolve_centroids(&table, vec![99, 99]), Ok(Shard::Direct(7)));
}

#[test]
fn two_probes_fan_out_over_distinct_shards() {
    let table = centroid_table(2, 3, 7);
    match resolve_centroids(&table, vec![1, 1]) {
        Ok(Shard::Multi(mut shards)) => {
            shards.sort();
            assert_eq!(shards, vec![3, 7]);
        }
        other => panic!("expected a fan-out over both shards, got {:?}", other),
    }
}

#[test]
fn probes_agreeing_on_one_shard_route_direct() {
    let table = centroid_table(2, 5, 5);
    assert_eq!(resolve_centroids(&table, vec![50, 50]), Ok(Shard::Direct(5)));
}

#[test]
fn probe_count_above_centroid_count_uses_all() {
    let table = centroid_table(9, 3, 7);
    match resolve_centroids(&table, vec![0, 0]) {
        Ok(Shard::Multi(mut shards)) => {
            shards.sort();
            assert_eq!(shards, vec![3, 7]);
        }
        other => panic!("expected a fan-out over both shards, got {:?}", other),
    }
}

#[test]
fn mismatched_dimensions_compare_zero_padded() {
    // A query missing a coordinate reads as zero there.
    let table = centroid_table(1, 3, 7);
    assert_eq!(resolve_centroids(&table, vec![2]), Ok(Shard::Direct(3)));
}
