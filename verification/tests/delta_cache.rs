use arcane_swarm::delta_cache::{key_for, CachedDelta, DeltaCache};
use std::collections::{HashMap, HashSet};
use std::sync::Arc;

fn empty_entry() -> Arc<CachedDelta> {
    Arc::new(CachedDelta { entity_ids: HashSet::new(), client_seqs: HashMap::new() })
}

#[test]
fn distinct_frames_get_distinct_keys() {
    let mut frame_a = vec![0u8; 80];
    let mut frame_b = vec![0u8; 80];
    frame_a[40] = 1;
    frame_b[40] = 2;
    assert_ne!(
        key_for(&frame_a),
        key_for(&frame_b),
        "frames differing only past byte 32 must produce different cache keys"
    );
}

#[test]
fn lookup_returns_inserted_entry() {
    let mut cache = DeltaCache::new(10);
    let frame = b"test-frame-bytes";
    let entry = empty_entry();
    assert!(cache.lookup(frame).is_none());
    cache.insert(frame, entry.clone());
    assert!(cache.lookup(frame).is_some());
}

#[test]
fn eviction_respects_capacity() {
    let mut cache = DeltaCache::new(2);
    for i in 0u8..3 {
        let frame = vec![i; 16];
        cache.insert(&frame, empty_entry());
    }
    // First entry should have been evicted.
    assert!(cache.lookup(&vec![0u8; 16]).is_none());
    assert!(cache.lookup(&vec![1u8; 16]).is_some());
    assert!(cache.lookup(&vec![2u8; 16]).is_some());
}

#[test]
fn hit_miss_counters_track_correctly() {
    let mut cache = DeltaCache::new(10);
    let frame = b"counter-test";
    cache.insert(frame, empty_entry());
    cache.lookup(frame); // hit
    cache.lookup(frame); // hit
    cache.lookup(b"missing"); // miss
    let (hits, misses) = cache.snapshot_and_reset_counters();
    assert_eq!(hits, 2);
    assert_eq!(misses, 1);
    let (h2, m2) = cache.snapshot_and_reset_counters();
    assert_eq!(h2, 0);
    assert_eq!(m2, 0);
}

#[test]
fn reinsert_keeps_place_in_eviction_order() {
    let mut cache = DeltaCache::new(3);
    cache.insert_key(1, empty_entry());
    cache.insert_key(2, empty_entry());
    cache.insert_key(1, empty_entry());
    cache.insert_key(3, empty_entry());
    cache.insert_key(4, empty_entry());
    // Key 1 was inserted first; re-inserting it did not make it younger.
    assert!(cache.lookup_key(1).is_none());
    assert!(cache.lookup_key(2).is_some());
    assert!(cache.lookup_key(3).is_some());
    assert!(cache.lookup_key(4).is_some());
}

#[test]
fn duplicate_insert_into_full_cache_only_overwrites() {
    let mut cache = DeltaCache::new(2);
    cache.insert_key(20, empty_entry());
    cache.insert_key(21, empty_entry());
    // A racing drain task inserts the same frame again: nothing is evicted.
    cache.insert_key(21, empty_entry());
    assert!(cache.lookup_key(20).is_some());
    assert!(cache.lookup_key(21).is_some());
    // The next new frame evicts the oldest, which is still key 20.
    cache.insert_key(22, empty_entry());
    assert!(cache.lookup_key(20).is_none());
    assert!(cache.lookup_key(21).is_some());
    assert!(cache.lookup_key(22).is_some());
}

#[test]
fn duplicate_frame_insert_keeps_the_other_frame() {
    let mut cache = DeltaCache::new(2);
    cache.insert(b"a", empty_entry());
    cache.insert(b"b", empty_entry());
    let e3 = empty_entry();
    cache.insert(b"b", e3.clone());
    assert!(cache.lookup(b"a").is_some());
    assert!(Arc::ptr_eq(&cache.lookup(b"b").unwrap(), &e3));
}

#[test]
fn zero_capacity_keeps_only_the_latest_frame() {
    let mut cache = DeltaCache::new(0);
    cache.insert_key(7, empty_entry());
    assert!(cache.lookup_key(7).is_some());
    cache.insert_key(8, empty_entry());
    assert!(cache.lookup_key(7).is_none());
    assert!(cache.lookup_key(8).is_some());
    let mut d = DeltaCache::default();
    for k in 0..1001u64 {
        d.insert_key(k, empty_entry());
    }
    assert!(d.lookup_key(0).is_none());
    assert!(d.lookup_key(1).is_some());
    assert!(d.lookup_key(1000).is_some());
}

#[test]
fn same_bytes_give_the_same_key() {
    assert_eq!(key_for(b"abc"), key_for(&b"abc".to_vec()));
}
