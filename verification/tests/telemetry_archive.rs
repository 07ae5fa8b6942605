use arcane_swarm::telemetry_archive::{is_snapshot_file_name, snapshot_file_name};

#[test]
fn snapshot_names_pad_the_counter_to_six_digits() {
    assert_eq!(snapshot_file_name(1_700_000_000_123, 0), "snapshot_1700000000123_000000.json");
    assert_eq!(snapshot_file_name(5, 42), "snapshot_5_000042.json");
    assert_eq!(snapshot_file_name(0, 1_234_567), "snapshot_0_1234567.json");
    assert_eq!(snapshot_file_name(7, 999_999), "snapshot_7_999999.json");
}

#[test]
fn restarted_archive_writes_new_names() {
    // A restart begins its counter at zero again but at a later time.
    let before: Vec<String> = (0..3).map(|s| snapshot_file_name(1_000, s)).collect();
    let after: Vec<String> = (0..3).map(|s| snapshot_file_name(2_000, s)).collect();
    for a in &after {
        assert!(!before.contains(a));
    }
    // The counter keeps names apart within one millisecond.
    assert_ne!(snapshot_file_name(1_000, 1), snapshot_file_name(1_000, 2));
    // A shorter time with a longer counter does not collide either.
    assert_ne!(snapshot_file_name(1, 1_000_000), snapshot_file_name(11, 0));
}

#[test]
fn listing_recognises_snapshot_files_only() {
    assert!(is_snapshot_file_name(&snapshot_file_name(123, 4)));
    assert!(is_snapshot_file_name("snapshot_.json"));
    assert!(!is_snapshot_file_name("snapshot_1_000000.txt"));
    assert!(!is_snapshot_file_name("other_1_000000.json"));
    assert!(!is_snapshot_file_name("snapshot.json"));
    assert!(!is_snapshot_file_name(""));
}
