use arcane_swarm::driver_pool::{DriverPool, DriverState};
use arcane_swarm::ids::DriverId;

const MS: u64 = 1_000;

fn unknown_id() -> DriverId {
    uuid::Uuid::new_v4().as_u128()
}

#[test]
fn register_succeeds_when_pool_has_capacity() {
    let mut pool = DriverPool::new(50 * MS, 150 * MS, 10);

    let capabilities = r#"{"platform":"linux"}"#.to_string();
    let result = pool.register(capabilities, 0);

    assert!(result.is_ok());
    assert_eq!(pool.len(), 1);
}

#[test]
fn register_rejects_when_pool_at_capacity() {
    let mut pool = DriverPool::new(50 * MS, 150 * MS, 2);

    let _cap1 = pool.register(r#"{"platform":"linux"}"#.to_string(), 0).unwrap();
    let _cap2 = pool.register(r#"{"platform":"windows"}"#.to_string(), 0).unwrap();

    assert_eq!(pool.len(), 2);

    let result = pool.register(r#"{"platform":"darwin"}"#.to_string(), 0);

    assert!(result.is_err());
    assert_eq!(pool.len(), 2);
}

#[test]
fn register_with_same_driver_id_replaces_entry() {
    let mut pool = DriverPool::new(50 * MS, 150 * MS, 10);

    let cap1 = pool.register(r#"{"platform":"linux","v":1}"#.to_string(), 0).unwrap();
    let initial_len = pool.len();

    let cap2 = pool.register(r#"{"platform":"linux","v":2}"#.to_string(), 0).unwrap();
    let final_len = pool.len();

    assert!(cap1 != cap2);
    assert_eq!(initial_len, 1);
    assert_eq!(final_len, 2);
}

#[test]
fn heartbeat_updates_timestamp_and_state() {
    let mut pool = DriverPool::new(50 * MS, 150 * MS, 10);

    let driver_id = pool.register(r#"{"platform":"linux"}"#.to_string(), 0).unwrap();
    let result = pool.heartbeat(driver_id, 10 * MS);

    assert!(result.is_ok());
    assert_eq!(pool.get_state(driver_id), Some(DriverState::Active));
}

#[test]
fn heartbeat_for_unknown_driver_returns_error() {
    let mut pool = DriverPool::new(50 * MS, 150 * MS, 10);
    let unknown_id = unknown_id();

    let result = pool.heartbeat(unknown_id, 0);

    assert!(result.is_err());
    assert!(result.unwrap_err().contains("not found"));
}

#[test]
fn deregister_removes_entry() {
    let mut pool = DriverPool::new(50 * MS, 150 * MS, 10);

    let driver_id = pool.register(r#"{"platform":"linux"}"#.to_string(), 0).unwrap();
    assert_eq!(pool.len(), 1);
    assert!(pool.contains(driver_id));

    let result = pool.deregister(driver_id);

    assert!(result.is_ok());
    assert_eq!(pool.len(), 0);
    assert!(!pool.contains(driver_id));
}

#[test]
fn deregister_for_unknown_driver_returns_error() {
    let mut pool = DriverPool::new(50 * MS, 150 * MS, 10);
    let unknown_id = unknown_id();

    let result = pool.deregister(unknown_id);

    assert!(result.is_err());
    assert!(result.unwrap_err().contains("not found"));
}

#[test]
fn mark_stale_drivers_transitions_expired_to_stale() {
    let mut pool = DriverPool::new(50 * MS, 100 * MS, 10);

    let driver_id = pool.register(r#"{"platform":"linux"}"#.to_string(), 0).unwrap();
    assert_eq!(pool.get_state(driver_id), Some(DriverState::Active));

    // 150 ms later.
    pool.mark_stale_drivers(150 * MS);

    assert_eq!(pool.get_state(driver_id), Some(DriverState::Stale));
}

#[test]
fn mark_stale_drivers_leaves_recent_active() {
    let mut pool = DriverPool::new(50 * MS, 200 * MS, 10);

    let driver_id = pool.register(r#"{"platform":"linux"}"#.to_string(), 0).unwrap();
    assert_eq!(pool.get_state(driver_id), Some(DriverState::Active));

    // 50 ms later.
    pool.mark_stale_drivers(50 * MS);

    assert_eq!(pool.get_state(driver_id), Some(DriverState::Active));
}

#[test]
fn pool_is_empty_initially() {
    let pool = DriverPool::new(50 * MS, 150 * MS, 10);

    assert!(pool.is_empty());
    assert_eq!(pool.len(), 0);
}

#[test]
fn contains_returns_true_for_registered_driver() {
    let mut pool = DriverPool::new(50 * MS, 150 * MS, 10);

    let driver_id = pool.register(r#"{"platform":"linux"}"#.to_string(), 0).unwrap();

    assert!(pool.contains(driver_id));
}

#[test]
fn contains_returns_false_for_unknown_driver() {
    let pool = DriverPool::new(50 * MS, 150 * MS, 10);
    let unknown_id = unknown_id();

    assert!(!pool.contains(unknown_id));
}

#[test]
fn capacity_error_names_the_count_and_the_maximum() {
    let mut pool = DriverPool::new(50 * MS, 150 * MS, 1);
    pool.register("{}".to_string(), 0).unwrap();
    let err = pool.register("{}".to_string(), 0).unwrap_err();
    assert_eq!(err, "Pool at capacity: 1 drivers (max: 1)");
}

#[test]
fn not_found_error_names_the_driver() {
    let mut pool = DriverPool::new(50 * MS, 150 * MS, 4);
    let id: DriverId = 0x0123_4567_89ab_cdef_0123_4567_89ab_cdef;
    let err = pool.heartbeat(id, 0).unwrap_err();
    assert_eq!(err, "Driver 01234567-89ab-cdef-0123-456789abcdef not found");
}

#[test]
fn register_with_id_replaces_capabilities_and_revives() {
    let mut pool = DriverPool::new(50 * MS, 100 * MS, 4);
    let id: DriverId = 7;
    pool.register_with_id(id, "{\"v\":1}".to_string(), 0).unwrap();
    pool.mark_stale_drivers(500 * MS);
    assert_eq!(pool.get_state(id), Some(DriverState::Stale));
    pool.register_with_id(id, "{\"v\":2}".to_string(), 600 * MS).unwrap();
    assert_eq!(pool.len(), 1);
    assert_eq!(pool.get_state(id), Some(DriverState::Active));
    let snap = pool.snapshot();
    assert_eq!(snap[0].capabilities, "{\"v\":2}");
    assert_eq!(snap[0].last_heartbeat_us, 600 * MS);
}

#[test]
fn heartbeat_revives_a_stale_driver() {
    let mut pool = DriverPool::new(50 * MS, 100 * MS, 4);
    let id = pool.register("{}".to_string(), 0).unwrap();
    pool.mark_stale_drivers(101 * MS);
    assert_eq!(pool.get_state(id), Some(DriverState::Stale));
    pool.heartbeat(id, 102 * MS).unwrap();
    assert_eq!(pool.get_state(id), Some(DriverState::Active));
    // Exactly at the threshold a driver is not stale yet.
    pool.mark_stale_drivers(202 * MS);
    assert_eq!(pool.get_state(id), Some(DriverState::Active));
    pool.mark_stale_drivers(203 * MS);
    assert_eq!(pool.get_state(id), Some(DriverState::Stale));
}

#[test]
fn registered_ids_are_version_4_uuids() {
    let mut pool = DriverPool::new(50 * MS, 100 * MS, 4);
    let id = pool.register("{}".to_string(), 0).unwrap();
    let u = uuid::Uuid::from_u128(id);
    assert_eq!(u.get_version_num(), 4);
}

#[test]
fn deregister_after_register_restores_the_pool() {
    let mut pool = DriverPool::new(5_000_000, 15_000_000, 4);
    pool.register_with_id(1, "{}".to_string(), 0).unwrap();
    let n = pool.len();
    let id = pool.register("{}".to_string(), 10).unwrap();
    assert_eq!(pool.get_state(id), Some(DriverState::Active));
    assert!(pool.deregister(id).is_ok());
    assert_eq!(pool.len(), n);
    assert!(!pool.contains(id));
    assert!(pool.contains(1));
    assert!(pool.deregister(id).unwrap_err().contains("not found"));
    assert_eq!(pool.len(), n);
}
