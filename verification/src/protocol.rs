//! Messages exchanged between drivers and the orchestrator.
//!
//! The wire form is JSON with a `type` tag; the serde copies of these
//! types live with the networking code, which converts at the socket.

use crate::ids::DriverId;
use vstd::prelude::*;

verus! {

/// Driver → orchestrator: ask to join the pool.
#[derive(Debug, Clone)]
pub struct RegisterRequest {
    /// The driver's capabilities object, as JSON text.
    pub capabilities: String,
}

#[derive(Debug, Clone, Copy, PartialEq, Eq, Structural)]
pub struct HeartbeatRequest {
    pub driver_id: DriverId,
}

#[derive(Debug, Clone, Copy, PartialEq, Eq, Structural)]
pub struct DeregisterRequest {
    pub driver_id: DriverId,
}

/// Driver → orchestrator: the command with sequence number `command_seq`
/// was applied.
#[derive(Debug, Clone, Copy, PartialEq, Eq, Structural)]
pub struct CommandAck {
    pub driver_id: DriverId,
    pub command_seq: u64,
}

#[derive(Debug, Clone)]
pub enum DriverMessage {
    Register(RegisterRequest),
    Heartbeat(HeartbeatRequest),
    Deregister(DeregisterRequest),
    CommandAck(CommandAck),
}

#[derive(Debug, Clone, Copy, PartialEq, Eq, Structural)]
pub struct SetPlayersCommand {
    pub player_count: u32,
}

#[derive(Debug, Clone, Copy, PartialEq, Eq, Structural)]
pub struct SetSpawnDelayMsCommand {
    pub spawn_delay_ms: u32,
}

#[derive(Debug, Clone, Copy, PartialEq, Eq, Structural)]
pub struct StartTierCommand {
    pub tier_index: u32,
    pub player_count: u32,
    pub hold_seconds: u32,
}

/// The domain-neutral command vocabulary the orchestrator relays.
#[derive(Debug, Clone, Copy, PartialEq, Eq, Structural)]
pub enum OrchestratorCommand {
    SetPlayers(SetPlayersCommand),
    SetSpawnDelayMs(SetSpawnDelayMsCommand),
    Stop,
    StartTier(StartTierCommand),
}

/// A command as pushed to one driver, tagged with the dispatcher's
/// sequence number.
#[derive(Debug, Clone, Copy, PartialEq, Eq, Structural)]
pub struct CommandEnvelope {
    pub seq: u64,
    pub command: OrchestratorCommand,
}

#[derive(Debug, Clone, Copy, PartialEq, Eq, Structural)]
pub struct AckResponse {
    pub driver_id: Option<DriverId>,
}

#[derive(Debug, Clone)]
pub struct RegisterRejectedResponse {
    pub reason: String,
}

#[derive(Debug, Clone)]
pub struct ErrorResponse {
    pub message: String,
}

/// Orchestrator → driver.
#[derive(Debug, Clone)]
pub enum OrchestratorResponse {
    Ack(AckResponse),
    RegisterRejected(RegisterRejectedResponse),
    Error(ErrorResponse),
    Command(CommandEnvelope),
}

} // verus!
