use arcane_swarm::protocol::{AckResponse, ErrorResponse};
use arcane_swarm::server::{channel_closed, channel_opened};
use arcane_swarm::driver_pool::DriverPool;
use arcane_swarm::protocol::{
    CommandAck, DeregisterRequest, DriverMessage, HeartbeatRequest, OrchestratorResponse, RegisterRequest,
};
use arcane_swarm::server::handle_message;

fn pool(max: usize) -> DriverPool {
    DriverPool::new(50_000, 150_000, max)
}

#[test]
fn handle_message_register_succeeds() {
    let mut pool = pool(100);
    let msg = DriverMessage::Register(RegisterRequest { capabilities: r#"{"platform":"linux"}"#.to_string() });
    let response = handle_message(&mut pool, msg, 0);
    match response {
        OrchestratorResponse::Ack(ack) => assert!(ack.driver_id.is_some()),
        _ => panic!("Expected Ack response"),
    }
}

#[test]
fn handle_message_register_rejected_when_full() {
    let mut pool = pool(1);
    pool.register(r#"{"platform":"linux"}"#.to_string(), 0).unwrap();
    let msg = DriverMessage::Register(RegisterRequest { capabilities: r#"{"platform":"windows"}"#.to_string() });
    let response = handle_message(&mut pool, msg, 0);
    assert!(matches!(response, OrchestratorResponse::RegisterRejected(_)));
}

#[test]
fn handle_message_heartbeat_succeeds() {
    let mut pool = pool(100);
    let driver_id = pool.register(r#"{"platform":"linux"}"#.to_string(), 0).unwrap();
    let msg = DriverMessage::Heartbeat(HeartbeatRequest { driver_id });
    let response = handle_message(&mut pool, msg, 1);
    match response {
        OrchestratorResponse::Ack(ack) => assert_eq!(ack.driver_id, None),
        _ => panic!("Expected Ack response"),
    }
}

#[test]
fn handle_message_heartbeat_unknown_driver_errors() {
    let mut pool = pool(100);
    let msg = DriverMessage::Heartbeat(HeartbeatRequest { driver_id: uuid::Uuid::new_v4().as_u128() });
    let response = handle_message(&mut pool, msg, 0);
    match response {
        OrchestratorResponse::Error(err) => assert!(err.message.contains("not found")),
        _ => panic!("Expected Error response"),
    }
}

#[test]
fn handle_message_deregister_succeeds() {
    let mut pool = pool(100);
    let driver_id = pool.register(r#"{"platform":"linux"}"#.to_string(), 0).unwrap();
    let msg = DriverMessage::Deregister(DeregisterRequest { driver_id });
    let response = handle_message(&mut pool, msg, 0);
    match response {
        OrchestratorResponse::Ack(ack) => assert_eq!(ack.driver_id, None),
        _ => panic!("Expected Ack response"),
    }
}

#[test]
fn handle_message_deregister_unknown_driver_errors() {
    let mut pool = pool(100);
    let msg = DriverMessage::Deregister(DeregisterRequest { driver_id: uuid::Uuid::new_v4().as_u128() });
    let response = handle_message(&mut pool, msg, 0);
    match response {
        OrchestratorResponse::Error(err) => assert!(err.message.contains("not found")),
        _ => panic!("Expected Error response"),
    }
}

#[test]
fn rejected_register_carries_the_capacity_reason() {
    let mut pool = pool(0);
    let msg = DriverMessage::Register(RegisterRequest { capabilities: "{}".to_string() });
    match handle_message(&mut pool, msg, 0) {
        OrchestratorResponse::RegisterRejected(r) => assert_eq!(r.reason, "Pool at capacity: 0 drivers (max: 0)"),
        _ => panic!("Expected RegisterRejected response"),
    }
}

#[test]
fn stray_command_ack_is_answered_with_an_error() {
    let mut pool = pool(4);
    let msg = DriverMessage::CommandAck(CommandAck { driver_id: 1, command_seq: 3 });
    match handle_message(&mut pool, msg, 0) {
        OrchestratorResponse::Error(e) => assert_eq!(e.message, "CommandAck handled at the connection layer"),
        _ => panic!("Expected Error response"),
    }
    assert!(pool.is_empty());
}

#[test]
fn connection_channel_follows_register_and_own_deregister() {
    let reg = DriverMessage::Register(RegisterRequest { capabilities: "{}".to_string() });
    let acked = OrchestratorResponse::Ack(AckResponse { driver_id: Some(9) });
    assert_eq!(channel_opened(&reg, &acked), Some(9));
    let hb = DriverMessage::Heartbeat(HeartbeatRequest { driver_id: 9 });
    let plain_ack = OrchestratorResponse::Ack(AckResponse { driver_id: None });
    assert_eq!(channel_opened(&hb, &plain_ack), None);
    let own = DriverMessage::Deregister(DeregisterRequest { driver_id: 9 });
    let other = DriverMessage::Deregister(DeregisterRequest { driver_id: 4 });
    let failed = OrchestratorResponse::Error(ErrorResponse { message: "Driver x not found".to_string() });
    assert_eq!(channel_closed(Some(9), &own, &plain_ack), Some(9));
    assert_eq!(channel_closed(Some(9), &other, &plain_ack), None);
    assert_eq!(channel_closed(Some(9), &own, &failed), None);
    assert_eq!(channel_closed(None, &own, &plain_ack), None);
}
