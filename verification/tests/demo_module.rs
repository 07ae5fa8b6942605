use arcane_swarm::demo_module::{GameEvent, Inventory, Keyed, ModuleDb, PhysicsTimer, PHYSICS_INTERVAL_MS};

type Db = ModuleDb<(i64, i64), (i8, i8)>;

#[test]
fn pickup_then_use_manages_one_stack() {
    let mut db = Db::new();
    db.pickup_item(1, 5, 3).unwrap();
    db.pickup_item(1, 5, 2).unwrap();
    db.pickup_item(2, 5, 1).unwrap();
    let rows = db.inventory_rows();
    assert_eq!(
        rows,
        vec![
            Inventory { row_id: 1, owner_id: 1, item_type: 5, quantity: 5 },
            Inventory { row_id: 2, owner_id: 2, item_type: 5, quantity: 1 },
        ]
    );
    db.use_item(1, 5).unwrap();
    assert_eq!(db.inventory_rows()[0].quantity, 4);
    db.use_item(2, 5).unwrap();
    assert_eq!(db.inventory_rows().len(), 1);
    // Using an item nobody holds changes nothing.
    db.use_item(9, 9).unwrap();
    assert_eq!(db.inventory_rows().len(), 1);
}

#[test]
fn pickup_overflow_fails_and_changes_nothing() {
    let mut db = Db::new();
    db.pickup_item(1, 1, u32::MAX).unwrap();
    let err = db.pickup_item(1, 1, 1).unwrap_err();
    assert_eq!(err, "arithmetic overflow");
    assert_eq!(db.inventory_rows()[0].quantity, u32::MAX);
}

#[test]
fn use_undoes_pickup_of_one() {
    let mut db = Db::new();
    db.pickup_item(3, 4, 2).unwrap();
    let before = db.inventory_rows();
    db.pickup_item(3, 4, 1).unwrap();
    db.use_item(3, 4).unwrap();
    assert_eq!(db.inventory_rows(), before);
    db.pickup_item(8, 8, 1).unwrap();
    db.use_item(8, 8).unwrap();
    assert_eq!(db.inventory_rows(), before);
}

#[test]
fn interactions_are_logged_and_old_ones_cleaned_up() {
    let mut db = Db::new();
    db.player_interact(1, 2, 0, 1_000_000).unwrap();
    db.player_interact(2, 1, 3, 5_000_000).unwrap();
    db.player_interact(1, 1, 1, 9_000_000).unwrap();
    assert_eq!(db.event_rows()[1], GameEvent { event_id: 2, actor_id: 2, target_id: 1, event_type: 3, timestamp_us: 5_000_000 });
    // Cutoff 10 s - 5 s = 5 s: the first event is strictly older.
    db.cleanup_old_events(5, 10_000_000).unwrap();
    let ids: Vec<u64> = db.event_rows().iter().map(|e| e.event_id).collect();
    assert_eq!(ids, vec![2, 3]);
    assert!(db.cleanup_old_events(u64::MAX, 0).is_err());
    assert_eq!(db.event_rows().len(), 2);
}

#[test]
fn players_are_upserted_and_removed_with_their_input() {
    let mut db = Db::new();
    db.update_player(7, (1, 2)).unwrap();
    db.update_player(7, (3, 4)).unwrap();
    db.update_player_input(7, (1, -1)).unwrap();
    assert_eq!(db.entity_rows().len(), 1);
    assert_eq!(db.entity_rows()[0].row, (3, 4));
    assert_eq!(db.input_for(7), Some(&(1, -1)));
    db.remove_player_by_id(7).unwrap();
    assert!(db.entity_rows().is_empty());
    assert_eq!(db.input_for(7), None);
}

#[test]
fn set_entities_replaces_all_and_refuses_duplicates() {
    let mut db = Db::new();
    db.update_player(1, (0, 0)).unwrap();
    db.set_entities(vec![Keyed { id: 2, row: (5, 5) }, Keyed { id: 3, row: (6, 6) }]).unwrap();
    let ids: Vec<u128> = db.entity_rows().iter().map(|k| k.id).collect();
    assert_eq!(ids, vec![2, 3]);
    let err = db.set_entities(vec![Keyed { id: 4, row: (0, 0) }, Keyed { id: 4, row: (1, 1) }]).unwrap_err();
    assert_eq!(err, "duplicate entity_id");
    assert_eq!(db.entity_rows().len(), 2);
}

#[test]
fn init_schedules_physics_only_with_server_physics() {
    let mut db = Db::new();
    db.init(false).unwrap();
    assert!(db.timer_rows().is_empty());
    db.init(true).unwrap();
    assert_eq!(db.timer_rows(), vec![PhysicsTimer { scheduled_id: 1, interval_ms: PHYSICS_INTERVAL_MS }]);
    assert_eq!(PHYSICS_INTERVAL_MS, 50);
}

#[test]
fn physics_tick_moves_each_entity_by_its_own_input() {
    // Integer stand-ins for positions and directions.
    let mut db: ModuleDb<(i64, i64), (i64, i64)> = ModuleDb::new();
    db.update_player(1, (10, 20)).unwrap();
    db.update_player(2, (30, 40)).unwrap();
    db.update_player_input(2, (1, -1)).unwrap();
    db.update_player_input(9, (5, 5)).unwrap();
    let r = db.physics_tick(|e: &(i64, i64), input: Option<(i64, i64)>| match input {
        Some((dx, dz)) => (e.0 + 30 * dx, e.1 + 30 * dz),
        None => *e,
    });
    assert!(r.is_ok());
    let rows: Vec<(u128, (i64, i64))> = db.entity_rows().iter().map(|k| (k.id, k.row)).collect();
    assert_eq!(rows, vec![(1, (10, 20)), (2, (60, 10))]);
    assert_eq!(db.input_for(9), Some(&(5, 5)));
}
