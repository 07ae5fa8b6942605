use arcane_swarm::config::Backend;
use arcane_swarm::orchestrated_mode::{
    driver_capabilities, register_failure_text, registration_result, set_players_line, OrchestratedState,
    RegisterFailure,
};
use arcane_swarm::protocol::{
    AckResponse, ErrorResponse, OrchestratorResponse, RegisterRejectedResponse, CommandAck, CommandEnvelope, DeregisterRequest, OrchestratorCommand, SetPlayersCommand, SetSpawnDelayMsCommand,
};

#[test]
fn apply_to_tcp_writes_set_players_line() {
    let mut s: OrchestratedState<()> = OrchestratedState::new(0, 0);
    let env = CommandEnvelope {
        seq: 1,
        command: OrchestratorCommand::SetPlayers(SetPlayersCommand { player_count: 250 }),
    };
    let line = s.apply_command(env.command);
    assert_eq!(line.as_deref(), Some("SET_PLAYERS 250\n"));
    assert_eq!(s.target_players, 250);
}

#[test]
fn apply_to_tcp_translates_stop_to_quit() {
    let mut s: OrchestratedState<()> = OrchestratedState::new(0, 0);
    let env = CommandEnvelope { seq: 2, command: OrchestratorCommand::Stop };
    let line = s.apply_command(env.command);
    assert_eq!(line.as_deref(), Some("QUIT\n"));
}

#[test]
fn apply_to_tcp_records_spawn_delay_locally() {
    let mut s: OrchestratedState<()> = OrchestratedState::new(0, 0);
    let env = CommandEnvelope {
        seq: 3,
        command: OrchestratorCommand::SetSpawnDelayMs(SetSpawnDelayMsCommand { spawn_delay_ms: 250 }),
    };
    let line = s.apply_command(env.command);
    assert_eq!(line, None);
    assert_eq!(s.spawn_delay_ms, 250);
}

#[test]
fn stop_is_acked_then_deregisters() {
    let mut s = OrchestratedState::new(5, 10).with_metrics(7u32);
    assert_eq!(s.metrics, Some(7));
    let reply = s.handle_command(99, CommandEnvelope { seq: 8, command: OrchestratorCommand::Stop });
    assert_eq!(reply.control_line.as_deref(), Some("QUIT\n"));
    assert_eq!(reply.ack, CommandAck { driver_id: 99, command_seq: 8 });
    assert_eq!(reply.deregister, Some(DeregisterRequest { driver_id: 99 }));
    assert!(s.stop);
    let reply = s.handle_command(
        99,
        CommandEnvelope { seq: 9, command: OrchestratorCommand::SetPlayers(SetPlayersCommand { player_count: 3 }) },
    );
    assert_eq!(reply.deregister, None);
    assert_eq!(reply.ack.command_seq, 9);
    assert_eq!(s.target_players, 3);
}

#[test]
fn capabilities_are_compact_json_with_sorted_keys() {
    let caps = driver_capabilities(Backend::Arcane, 500, 20);
    assert_eq!(caps, r#"{"backend":"arcane","binary":"arcane-swarm","max_players":500,"tick_rate":20}"#);
    let parsed: serde_json::Value = serde_json::from_str(&caps).unwrap();
    assert_eq!(parsed["max_players"], 500);
    assert_eq!(set_players_line(0), "SET_PLAYERS 0\n");
    let stdb = driver_capabilities(Backend::SpacetimeDb, 0, 1);
    assert!(stdb.starts_with(r#"{"backend":"spacetimedb","#));
}

#[test]
fn register_answers() {
    let ok = registration_result(OrchestratorResponse::Ack(AckResponse { driver_id: Some(5) }));
    assert!(matches!(ok, Ok(5)));
    let missing = registration_result(OrchestratorResponse::Ack(AckResponse { driver_id: None })).unwrap_err();
    assert_eq!(register_failure_text(&missing).as_deref(), Some("register ack missing driver_id"));
    let rejected = registration_result(OrchestratorResponse::RegisterRejected(RegisterRejectedResponse {
        reason: "Pool at capacity: 2 drivers (max: 2)".to_string(),
    }))
    .unwrap_err();
    assert_eq!(
        register_failure_text(&rejected).as_deref(),
        Some("orchestrator rejected register: Pool at capacity: 2 drivers (max: 2)")
    );
    let other = registration_result(OrchestratorResponse::Error(ErrorResponse { message: "x".to_string() })).unwrap_err();
    assert!(matches!(other, RegisterFailure::Unexpected));
    assert_eq!(register_failure_text(&other), None);
}
