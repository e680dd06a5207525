use std::hash::Hasher;

use ying_profiler::sharded_map::{mix64, shard_capacity, ShardedMap, U64Hasher};

#[test]
fn insert_get_remove() {
    let mut map = ShardedMap::with_capacity(100, None);
    assert_eq!(map.len(), 0);
    assert!(!map.contains_key(42));

    map.insert(42, 1u64);
    assert!(map.contains_key(42));
    assert_eq!(map.get_cloned(42), Some(1));
    assert_eq!(map.len(), 1);

    assert_eq!(map.remove(42), Some(1));
    assert_eq!(map.remove(42), None);
    assert_eq!(map.len(), 0);
}

#[test]
fn update_or_insert_with_creates_then_updates() {
    let mut map = ShardedMap::with_capacity(10, None);

    map.update_or_insert_with(7, |v| *v += 100, || 1u64);
    assert_eq!(map.get_cloned(7), Some(1));

    map.update_or_insert_with(7, |v| *v += 100, || 1u64);
    assert_eq!(map.get_cloned(7), Some(101));
}

#[test]
fn update_only_touches_existing_keys() {
    let mut map = ShardedMap::with_capacity(10, None);

    map.update(7, |v: &mut u64| *v += 1);
    assert_eq!(map.get_cloned(7), None);

    map.insert(7, 5u64);
    map.update(7, |v| *v += 1);
    assert_eq!(map.get_cloned(7), Some(6));
}

#[test]
fn iteration_and_clear_cover_all_shards() {
    let mut map = ShardedMap::with_capacity(1000, None);
    for i in 0..1000u64 {
        map.insert(i, i * 2);
    }
    assert_eq!(map.len(), 1000);

    let entries = map.map_to_vec(|k, v| (k, *v));
    assert_eq!(entries.len(), 1000);
    for (k, v) in &entries {
        assert_eq!(*v, k * 2);
    }
    let sum: u64 = entries.iter().map(|(_, v)| v).sum();
    assert_eq!(sum, (0..1000u64).map(|i| i * 2).sum::<u64>());

    map.clear();
    assert_eq!(map.len(), 0);
    assert_eq!(map.map_to_vec(|k, _| k).len(), 0);
}

/// Every key must land in exactly one shard, and keys that are close together (as heap
/// addresses are) must not all pile into the same one.
#[test]
fn adjacent_keys_spread_across_shards() {
    for cpus in [None, Some(1), Some(8), Some(16), Some(64)] {
        let map = ShardedMap::<u64>::with_capacity(0, cpus);
        let num_shards = map.shards_len();

        // Pointer-like keys: 16-byte aligned and consecutive
        let mut occupied = vec![0usize; num_shards];
        for i in 0..(num_shards * 100) {
            occupied[map.shard_of(0x7f00_0000_0000 + (i as u64) * 16)] += 1;
        }

        assert!(occupied.iter().all(|&c| c > 0), "some shard got no keys");
        // Perfectly even would be 100 per shard; allow a wide band, we only care that it is not
        // pathologically lumpy
        assert!(occupied.iter().all(|&c| c > 40 && c < 200), "{occupied:?}");
    }
}

#[test]
fn inserts_in_interleaved_order_are_all_kept() {
    let mut map = ShardedMap::with_capacity(100, Some(16));
    for i in 0..1000u64 {
        for t in 0..8u64 {
            map.insert(t * 1000 + i, i);
        }
    }
    assert_eq!(map.len(), 8000);
}

#[test]
fn shards_are_four_per_cpu_as_a_power_of_two() {
    let shards = |cpus| ShardedMap::<u8>::with_capacity(1000, cpus).shards_len();
    assert_eq!(shards(None), 16);
    assert_eq!(shards(Some(1)), 16);
    assert_eq!(shards(Some(4)), 16);
    assert_eq!(shards(Some(5)), 32);
    assert_eq!(shards(Some(8)), 32);
    assert_eq!(shards(Some(9)), 64);
    assert_eq!(shards(Some(16)), 64);
    assert_eq!(shards(Some(17)), 128);
    assert_eq!(shards(Some(1000)), 128);
}

#[test]
fn capacity_is_shared_out_evenly() {
    assert_eq!(shard_capacity(1000, 16), 62);
    assert_eq!(shard_capacity(1, 16), 0);
    assert_eq!(shard_capacity(0, 128), 0);
}

#[test]
fn insert_hands_back_what_it_replaces() {
    let mut map = ShardedMap::with_capacity(0, Some(2));
    assert_eq!(map.insert(5, "a"), None);
    assert_eq!(map.insert(5, "b"), Some("a"));
    assert_eq!(map.get(5), Some(&"b"));
    assert_eq!(map.with_value(5, |v| v.map(|s| s.len())), Some(1));
    assert_eq!(map.with_value(6, |v| v.map(|s| s.len())), None);
}

#[test]
fn mixing_is_the_murmur3_finalizer() {
    assert_eq!(mix64(0), 0);
    assert_eq!(mix64(1), 0xb456bcfc34c2cb2c);
}

#[test]
fn hasher_mixes_integers_once_and_bytes_one_by_one() {
    let mut h = U64Hasher::default();
    h.write_u64(12345);
    assert_eq!(h.finish(), mix64(12345));
    h.write_usize(7);
    assert_eq!(h.finish(), mix64(7));

    let mut bytes = U64Hasher::default();
    bytes.write(&[1, 2]);
    assert_eq!(bytes.finish(), mix64(mix64(1) ^ 2));
}
