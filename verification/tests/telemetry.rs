use arcane_swarm::command_dispatcher::CommandDispatcher;
use arcane_swarm::driver_pool::{DriverPool, DriverState};
use arcane_swarm::protocol::{CommandAck, OrchestratorCommand};
use arcane_swarm::telemetry::{state_name, wire_cluster, ClusterStats, TelemetrySource};

#[test]
fn snapshot_lists_fleet_recent_commands_and_clusters() {
    let mut pool = DriverPool::new(1_000, 10_000, 8);
    let a = pool.register(r#"{"n":1}"#.to_string(), 1_000).unwrap();
    let mut d = CommandDispatcher::new();
    d.register_channel(a);
    for i in 0..3u64 {
        let (seq, rec) = d.begin_submit(&pool);
        let active = rec.unwrap();
        let delivered = vec![(a, CommandAck { driver_id: a, command_seq: seq })];
        d.record_submit(seq, format!("ctl{}", i), OrchestratorCommand::Stop, 2_000 + i, active, delivered);
    }
    let stats = ClusterStats {
        bytes_in: 1,
        bytes_out: 2,
        last_tick_us: 3,
        broadcast_lagged_events: 4,
        entities_current: 5,
        sampled_at_us: 6,
    };
    let clusters = vec![("http://c1/stats".to_string(), stats)];
    let src = TelemetrySource::new().with_recent_command_window(2);
    assert_eq!(src.recent_command_window(), 2);
    let snap = src.tick(&pool, &d, &clusters, 5_500, 42);
    assert_eq!(snap.snapshot_at_unix_ms, 42);
    assert_eq!(snap.fleet.len(), 1);
    assert_eq!(snap.fleet[0].state, "Active");
    assert_eq!(snap.fleet[0].last_heartbeat_age_ms, 4);
    assert_eq!(snap.recent_commands.len(), 2);
    assert_eq!(snap.recent_commands[0].seq, 2);
    assert_eq!(snap.recent_commands[1].seq, 1);
    assert_eq!(snap.recent_commands[0].acked_drivers, vec![a]);
    assert_eq!(snap.recent_commands[0].age_ms, 3);
    assert_eq!(snap.clusters[0].0, "http://c1/stats");
    assert_eq!(snap.clusters[0].1, wire_cluster(stats));
    assert_eq!(TelemetrySource::new().recent_command_window(), 32);
}

#[test]
fn state_names() {
    assert_eq!(state_name(DriverState::Active), "Active");
    assert_eq!(state_name(DriverState::Stale), "Stale");
    assert_eq!(state_name(DriverState::Failed), "Failed");
}
