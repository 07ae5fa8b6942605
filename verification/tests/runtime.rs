use arcane_swarm::config::ArcaneEndpoint;
use arcane_swarm::delta_cache::DeltaCache;
use arcane_swarm::runtime::{ArcaneRuntime, SharedPositions, SpacetimeConnectParams, SpacetimeRuntime};

#[test]
fn spacetimedb_name_is_correct() {
    let rt = SpacetimeRuntime {
        connect_params: SpacetimeConnectParams {
            ws_uri: "ws://localhost:3000".into(),
            database_name: "test".into(),
        },
        server_physics: false,
    };
    assert_eq!(rt.name(), "spacetimedb");
}

#[test]
fn spacetimedb_snapshot_cache_counters_returns_zero() {
    let rt = SpacetimeRuntime {
        connect_params: SpacetimeConnectParams {
            ws_uri: "ws://localhost:3000".into(),
            database_name: "test".into(),
        },
        server_physics: false,
    };
    assert_eq!(rt.snapshot_cache_counters(), (0, 0));
}

#[test]
fn arcane_name_is_correct() {
    let rt = ArcaneRuntime {
        endpoint: ArcaneEndpoint::SingleUrl("ws://localhost:8080".into()),
        delta_cache: DeltaCache::default(),
        user_data_bytes: 0,
    };
    assert_eq!(rt.name(), "arcane");
}

#[test]
fn arcane_snapshot_cache_counters_returns_cache_state() {
    let mut rt = ArcaneRuntime {
        endpoint: ArcaneEndpoint::SingleUrl("ws://localhost:8080".into()),
        delta_cache: DeltaCache::default(),
        user_data_bytes: 0,
    };
    // Fresh cache: hits=0, misses=0
    assert_eq!(rt.snapshot_cache_counters(), (0, 0));
}

#[test]
fn arcane_counters_reflect_lookups_and_reset() {
    let mut rt = ArcaneRuntime::new(ArcaneEndpoint::SingleUrl("ws://h:1".into()), 64);
    assert!(rt.delta_cache.lookup_key(5).is_none());
    assert!(rt.delta_cache.lookup_key(6).is_none());
    assert_eq!(rt.snapshot_cache_counters(), (0, 2));
    assert_eq!(rt.snapshot_cache_counters(), (0, 0));
    assert_eq!(rt.user_data_bytes, 64);
}

#[test]
fn spacetime_runtime_keeps_its_parameters() {
    let rt = SpacetimeRuntime::new("ws://h:3000".into(), "arcane".into(), true);
    assert_eq!(rt.connect_params.ws_uri, "ws://h:3000");
    assert_eq!(rt.connect_params.database_name, "arcane");
    assert!(rt.server_physics);
}

#[test]
fn shared_positions_start_at_origin_and_remember_updates() {
    let mut p = SharedPositions::new(3);
    assert_eq!(p.len(), 3);
    assert_eq!(p.get(2), (0, 0));
    p.set(1, 1200, -40);
    assert_eq!(p.get(1), (1200, -40));
    assert_eq!(p.get(0), (0, 0));
}
