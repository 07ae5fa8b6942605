//! Orchestrated mode of a swarm driver: the driver registers with the
//! orchestrator, and every command the orchestrator pushes is turned into
//! the local control protocol (`SET_PLAYERS N`, `QUIT`) and acknowledged.
//!
//! The sockets and tasks belong to the networking layer; this module holds
//! the driver-side state and decides, for each pushed command, the control
//! line to write, the acknowledgement to send and whether to leave.

use crate::config::{backend_name, backend_text, Backend};
use crate::ids::DriverId;
use crate::protocol::{CommandAck, CommandEnvelope, DeregisterRequest, OrchestratorCommand, OrchestratorResponse};
use crate::text::{decimal, push_decimal, push_str};
use crate::wire_payload::json_plain;
use vstd::prelude::*;

verus! {

/// Driver state driven by orchestrator commands. `M` is the handle of the
/// metrics reported with heartbeats, when there are any.
#[derive(Debug, Clone)]
pub struct OrchestratedState<M> {
    pub target_players: u32,
    pub spawn_delay_ms: u32,
    pub stop: bool,
    pub metrics: Option<M>,
}

impl<M> OrchestratedState<M> {
    pub fn new(initial_players: u32, initial_spawn_delay_ms: u32) -> (s: Self)
        ensures
            s.target_players == initial_players,
            s.spawn_delay_ms == initial_spawn_delay_ms,
            !s.stop,
            s.metrics is None,
    {
        OrchestratedState {
            target_players: initial_players,
            spawn_delay_ms: initial_spawn_delay_ms,
            stop: false,
            metrics: None,
        }
    }

    pub fn with_metrics(self, metrics: M) -> (s: Self)
        ensures
            s.target_players == self.target_players,
            s.spawn_delay_ms == self.spawn_delay_ms,
            s.stop == self.stop,
            s.metrics == Some(metrics),
    {
        OrchestratedState { metrics: Some(metrics), ..self }
    }
}

/// The control line that sets the player count.
pub open spec fn set_players_text(n: u32) -> Seq<char> {
    "SET_PLAYERS "@ + decimal(n as nat) + "\n"@
}

/// The control line that stops the swarm.
pub open spec fn quit_text() -> Seq<char> {
    "QUIT\n"@
}

/// `SET_PLAYERS n` with its line feed.
pub fn set_players_line(n: u32) -> (s: String)
    ensures
        s@ == set_players_text(n),
{
    let mut s = String::new();
    push_str(&mut s, "SET_PLAYERS ");
    push_decimal(&mut s, n as u64);
    push_str(&mut s, "\n");
    s
}

/// What applying `cmd` writes to the control connection: the new player
/// count, `QUIT`, or nothing (the spawn delay is only recorded, and a
/// tier start carries no load of its own: the `SetPlayers` before it does).
pub open spec fn control_text(cmd: OrchestratorCommand) -> Option<Seq<char>> {
    match cmd {
        OrchestratorCommand::SetPlayers(c) => Some(set_players_text(c.player_count)),
        OrchestratorCommand::SetSpawnDelayMs(_) => None,
        OrchestratorCommand::Stop => Some(quit_text()),
        OrchestratorCommand::StartTier(_) => None,
    }
}

impl<M> OrchestratedState<M> {
    /// Records `cmd` and returns the control line it translates to.
    pub fn apply_command(&mut self, cmd: OrchestratorCommand) -> (line: Option<String>)
        ensures
            line matches Some(l) ==> control_text(cmd) == Some(l@),
            line is None ==> control_text(cmd) is None,
            final(self).target_players == (match cmd {
                OrchestratorCommand::SetPlayers(c) => c.player_count,
                _ => old(self).target_players,
            }),
            final(self).spawn_delay_ms == (match cmd {
                OrchestratorCommand::SetSpawnDelayMs(c) => c.spawn_delay_ms,
                _ => old(self).spawn_delay_ms,
            }),
            final(self).stop == old(self).stop,
            final(self).metrics == old(self).metrics,
    {
        match cmd {
            OrchestratorCommand::SetPlayers(c) => {
                self.target_players = c.player_count;
                Some(set_players_line(c.player_count))
            },
            OrchestratorCommand::SetSpawnDelayMs(c) => {
                self.spawn_delay_ms = c.spawn_delay_ms;
                None
            },
            OrchestratorCommand::Stop => {
                let mut s = String::new();
                push_str(&mut s, "QUIT\n");
                Some(s)
            },
            OrchestratorCommand::StartTier(_) => None,
        }
    }
}

/// What the driver does with one pushed command.
#[derive(Debug)]
pub struct BridgeReply {
    /// Line to write to the control connection.
    pub control_line: Option<String>,
    /// Acknowledgement to send back.
    pub ack: CommandAck,
    /// Sent after the ack when the command was `Stop`; the driver then
    /// stops reading.
    pub deregister: Option<DeregisterRequest>,
}

impl<M> OrchestratedState<M> {
    /// Handles a command pushed to driver `driver_id`: applies it, acks its
    /// sequence number, and on `Stop` raises the stop flag and deregisters.
    pub fn handle_command(&mut self, driver_id: DriverId, env: CommandEnvelope) -> (r: BridgeReply)
        ensures
            r.control_line matches Some(l) ==> control_text(env.command) == Some(l@),
            r.control_line is None ==> control_text(env.command) is None,
            r.ack == (CommandAck { driver_id, command_seq: env.seq }),
            r.deregister == (if env.command == OrchestratorCommand::Stop {
                Some(DeregisterRequest { driver_id })
            } else {
                None
            }),
            final(self).stop == (old(self).stop || env.command == OrchestratorCommand::Stop),
            final(self).target_players == (match env.command {
                OrchestratorCommand::SetPlayers(c) => c.player_count,
                _ => old(self).target_players,
            }),
            final(self).spawn_delay_ms == (match env.command {
                OrchestratorCommand::SetSpawnDelayMs(c) => c.spawn_delay_ms,
                _ => old(self).spawn_delay_ms,
            }),
            final(self).metrics == old(self).metrics,
    {
        let control_line = self.apply_command(env.command);
        let ack = CommandAck { driver_id, command_seq: env.seq };
        let deregister = match env.command {
            OrchestratorCommand::Stop => {
                self.stop = true;
                Some(DeregisterRequest { driver_id })
            },
            _ => None,
        };
        BridgeReply { control_line, ack, deregister }
    }
}

/// The capabilities object a driver registers with, as compact JSON with
/// its keys in order.
pub open spec fn capabilities_text(backend: Backend, max_players: u32, tick_rate: u32) -> Seq<char> {
    "{\"backend\":\""@ + backend_text(backend) + "\",\"binary\":\"arcane-swarm\",\"max_players\":"@
        + decimal(max_players as nat) + ",\"tick_rate\":"@ + decimal(tick_rate as nat) + "}"@
}

/// Whether `a` sorts before `b` character by character (for ASCII, the
/// byte order in which a `String` key map keeps its keys).
pub open spec fn text_before(a: Seq<char>, b: Seq<char>) -> bool {
    exists|i: int|
        0 <= i <= a.len() && i <= b.len() && a.take(i) == b.take(i) && (
        (i == a.len() && i < b.len()) || (i < a.len() && i < b.len() && (a[i] as u32) < (b[i] as u32)))
}

/// `"text"` as a JSON string literal, for text serde_json writes verbatim.
pub open spec fn quoted(t: Seq<char>) -> Seq<char> {
    "\""@ + t + "\""@
}

/// `serde_json::to_string` of a `serde_json::Value::Object` holding the text
/// entries `k1: v1`, `k2: v2` and the integer entries `k3: n3`, `k4: n4`.
/// Without serde_json's `preserve_order` feature (no crate here enables it)
/// an object's map is a `BTreeMap<String, Value>`, so entries come out in
/// key order, here `k1, k2, k3, k4`; the compact formatter writes no
/// whitespace, integers in decimal, and text made of printable ASCII other
/// than `"` and `\` verbatim between quotes. Serializing a `Value` cannot
/// fail.
#[verifier::external_body]
fn json_object_text(k1: String, v1: String, k2: String, v2: String, k3: String, n3: u32, k4: String, n4: u32) -> (s: String)
    requires
        json_plain(k1@) && json_plain(v1@) && json_plain(k2@) && json_plain(v2@),
        json_plain(k3@) && json_plain(k4@),
        text_before(k1@, k2@) && text_before(k2@, k3@) && text_before(k3@, k4@),
    ensures
        s@ == "{"@ + quoted(k1@) + ":"@ + quoted(v1@) + ","@ + quoted(k2@) + ":"@ + quoted(v2@) + ","@
            + quoted(k3@) + ":"@ + decimal(n3 as nat) + ","@ + quoted(k4@) + ":"@ + decimal(n4 as nat) + "}"@,
{
    let mut map = serde_json::Map::new();
    map.insert(k1, serde_json::Value::from(v1));
    map.insert(k2, serde_json::Value::from(v2));
    map.insert(k3, serde_json::Value::from(n3));
    map.insert(k4, serde_json::Value::from(n4));
    serde_json::to_string(&serde_json::Value::Object(map)).unwrap()
}

fn owned(t: &str) -> (s: String)
    ensures
        s@ == t@,
{
    let mut s = String::new();
    push_str(&mut s, t);
    s
}

pub fn driver_capabilities(backend: Backend, max_players: u32, tick_rate: u32) -> (s: String)
    ensures
        s@ == capabilities_text(backend, max_players, tick_rate),
{
    let k1 = owned("backend");
    let v1 = owned(backend_name(backend));
    let k2 = owned("binary");
    let v2 = owned("arcane-swarm");
    let k3 = owned("max_players");
    let k4 = owned("tick_rate");
    proof {
        reveal_strlit("arcane");
        reveal_strlit("spacetimedb");
        reveal_strlit("backend");
        reveal_strlit("binary");
        reveal_strlit("arcane-swarm");
        reveal_strlit("max_players");
        reveal_strlit("tick_rate");
        reveal_strlit("\"");
        reveal_strlit("{");
        reveal_strlit(":");
        reveal_strlit(",");
        reveal_strlit("}");
        reveal_strlit("{\"backend\":\"");
        reveal_strlit("\",\"binary\":\"arcane-swarm\",\"max_players\":");
        reveal_strlit(",\"tick_rate\":");
        assert(k1@.take(1) =~= k2@.take(1));
        assert(text_before(k1@, k2@));
        assert(k2@.take(0) =~= k3@.take(0));
        assert(text_before(k2@, k3@));
        assert(k3@.take(0) =~= k4@.take(0));
        assert(text_before(k3@, k4@));
    }
    let s = json_object_text(k1, v1, k2, v2, k3, max_players, k4, tick_rate);
    proof {
        assert(s@ =~= capabilities_text(backend, max_players, tick_rate));
    }
    s
}

/// Why registering with the orchestrator failed.
#[derive(Debug, Clone)]
pub enum RegisterFailure {
    /// The orchestrator acknowledged without assigning an id.
    MissingDriverId,
    /// The orchestrator refused, for this reason.
    Rejected(String),
    /// The orchestrator answered with something other than a register
    /// answer.
    Unexpected,
}

/// The outcome of the orchestrator's answer to a register request.
pub fn registration_result(resp: OrchestratorResponse) -> (r: Result<DriverId, RegisterFailure>)
    ensures
        match resp {
            OrchestratorResponse::Ack(a) => match a.driver_id {
                Some(id) => r == Ok::<DriverId, RegisterFailure>(id),
                None => r matches Err(RegisterFailure::MissingDriverId),
            },
            OrchestratorResponse::RegisterRejected(rej) => r matches Err(RegisterFailure::Rejected(reason))
                && reason@ == rej.reason@,
            _ => r matches Err(RegisterFailure::Unexpected),
        },
{
    match resp {
        OrchestratorResponse::Ack(a) => match a.driver_id {
            Some(id) => Ok(id),
            None => Err(RegisterFailure::MissingDriverId),
        },
        OrchestratorResponse::RegisterRejected(rej) => Err(RegisterFailure::Rejected(rej.reason)),
        _ => Err(RegisterFailure::Unexpected),
    }
}

/// The error text of a failed registration; an unexpected answer is
/// described by the caller, which can print the answer itself.
pub fn register_failure_text(f: &RegisterFailure) -> (s: Option<String>)
    ensures
        match f {
            RegisterFailure::MissingDriverId => s matches Some(t) && t@ == "register ack missing driver_id"@,
            RegisterFailure::Rejected(reason) => s matches Some(t) && t@ == "orchestrator rejected register: "@ + reason@,
            RegisterFailure::Unexpected => s is None,
        },
{
    match f {
        RegisterFailure::MissingDriverId => {
            let mut t = String::new();
            push_str(&mut t, "register ack missing driver_id");
            Some(t)
        },
        RegisterFailure::Rejected(reason) => {
            let mut t = String::new();
            push_str(&mut t, "orchestrator rejected register: ");
            push_str(&mut t, reason.as_str());
            Some(t)
        },
        RegisterFailure::Unexpected => None,
    }
}

} // verus!
