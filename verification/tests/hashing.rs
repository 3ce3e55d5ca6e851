use shardroute::hasher::Hasher;

#[test]
fn digest_is_deterministic_across_calls() {
    let bytes = b"550e8400-e29b-41d4-a716-446655440000".to_vec();
    for h in [Hasher::Postgres, Hasher::Sha1] {
        let first = h.digest(&bytes);
        for _ in 0..10 {
            assert_eq!(h.digest(&bytes), first);
        }
    }
}

#[test]
fn digest_matches_pinned_values() {
    // Pinned expected digests: routing must agree across process runs, so
    // these values may never drift.
    let bytes = b"hello".to_vec();
    assert_eq!(Hasher::Postgres.digest(&bytes), 0xa430d84680aabd0b);
    assert_eq!(Hasher::Sha1.digest(&bytes), 0x0f776dbf41aa68fe);
}

#[test]
fn variants_disagree_on_typical_input() {
    let bytes = b"42".to_vec();
    assert_ne!(Hasher::Postgres.digest(&bytes), Hasher::Sha1.digest(&bytes));
}

#[test]
fn empty_input_digests_to_initial_state() {
    let empty: Vec<u8> = Vec::new();
    assert_eq!(Hasher::Postgres.digest(&empty), 0xcbf29ce484222325);
    assert_eq!(Hasher::Sha1.digest(&empty), 0x6a09e667f3bcc908);
}

#[test]
fn digest_mod_four_is_near_uniform() {
    // Statistical check over a large, varied input set: each of the four
    // buckets should hold close to a quarter of 2000 keys.
    for h in [Hasher::Postgres, Hasher::Sha1] {
        let mut buckets = [0usize; 4];
        for i in 0..2000u32 {
            let key = format!("{}", i).into_bytes();
            buckets[(h.digest(&key) % 4) as usize] += 1;
        }
        for (b, count) in buckets.iter().enumerate() {
            assert!(
                (350..=650).contains(count),
                "bucket {} holds {} of 2000 keys; distribution is far from uniform",
                b,
                count
            );
        }
    }
}
