use arcane_swarm::player_loops::{movement_call, MovementCall};
use arcane_swarm::player_loops::{
    action_repeats, aoi_query, interaction_target, self_query, update_latency_us, user_data_seed, FlightTable,
};

#[test]
fn echo_gives_round_trip_and_forgets_older_sends() {
    let mut t = FlightTable::new();
    t.record_sent(1, 100);
    t.record_sent(2, 200);
    t.record_sent(3, 300);
    assert_eq!(t.on_echo(2, 260), Some(60));
    // Frame 1 was superseded, frame 3 is still in flight.
    assert_eq!(t.len(), 1);
    assert_eq!(t.on_echo(1, 400), None);
    assert_eq!(t.on_echo(3, 250), Some(0));
    assert_eq!(t.len(), 0);
    assert_eq!(t.on_echo(0, 1), None);
}

#[test]
fn flight_table_forgets_the_oldest_beyond_capacity() {
    let mut t = FlightTable::new();
    for seq in 1..=1025u64 {
        t.record_sent(seq, seq * 10);
    }
    assert_eq!(t.len(), 1024);
    assert_eq!(t.on_echo(1, 99_999), None);
    assert_eq!(t.on_echo(2, 30), Some(10));
}

#[test]
fn small_loop_decisions() {
    assert_eq!(user_data_seed(0x0000_0000_0000_0001_0000_0000_0000_0003), 2);
    assert_eq!(update_latency_us(500, -1), None);
    assert_eq!(update_latency_us(500, 200), Some(300));
    assert_eq!(update_latency_us(100, 200), Some(0));
    assert_eq!(action_repeats(0), 1);
    assert_eq!(action_repeats(10), 10);
    let ids = vec![10u128, 20, 30];
    assert_eq!(interaction_target(&ids, 1, 99), 20);
    assert_eq!(interaction_target(&ids, 3, 99), 99);
}

#[test]
fn subscription_queries() {
    assert_eq!(
        aoi_query(2500, 100, 1500),
        "SELECT * FROM entity WHERE x >= 1000 AND x <= 4000 AND z >= -1400 AND z <= 1600"
    );
    assert_eq!(
        self_query(0x1234),
        format!("SELECT * FROM entity WHERE entity_id = 0x{:032x}", 0x1234u128)
    );
    assert_eq!(
        self_query(u128::MAX),
        "SELECT * FROM entity WHERE entity_id = 0xffffffffffffffffffffffffffffffff"
    );
}

#[test]
fn movement_uses_inputs_only_with_server_physics() {
    assert_eq!(movement_call(true, true), MovementCall::UpdatePlayer);
    assert_eq!(movement_call(false, true), MovementCall::UpdatePlayerInput);
    assert_eq!(movement_call(true, false), MovementCall::UpdatePlayer);
    assert_eq!(movement_call(false, false), MovementCall::UpdatePlayer);
}
