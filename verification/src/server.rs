//! The orchestrator's answer to each driver lifecycle message.

use crate::driver_pool::{
    capacity_message, has_id, heartbeat_applied, index_in, not_found_message, upsert,
    DriverEntry, DriverPool, DriverState,
};
use crate::ids::{is_v4_uuid, DriverId};
use crate::protocol::{
    AckResponse, DriverMessage, ErrorResponse, OrchestratorResponse, RegisterRejectedResponse,
};
use crate::text::push_str;
use vstd::prelude::*;

verus! {

/// Text of the reply to a `CommandAck` that reaches the message handler
/// (acks are routed by the connection, not the pool).
pub open spec fn stray_ack_message() -> Seq<char> {
    "CommandAck handled at the connection layer"@
}

/// Applies one driver message to the pool and builds the response:
/// `Register` answers `Ack` with the new id or `RegisterRejected` with the
/// capacity text; `Heartbeat` and `Deregister` answer `Ack` without an id,
/// or `Error` with the not-found text; a `CommandAck` answers `Error`.
pub fn handle_message(pool: &mut DriverPool, msg: DriverMessage, now_us: u64) -> (resp: OrchestratorResponse)
    requires
        old(pool).wf(),
    ensures
        final(pool).wf(),
        final(pool).max_drivers() == old(pool).max_drivers(),
        final(pool).stale_threshold_us() == old(pool).stale_threshold_us(),
        final(pool).heartbeat_interval_us() == old(pool).heartbeat_interval_us(),
        match msg {
            DriverMessage::Register(req) => if old(pool).entries().len() < old(pool).max_drivers() {
                &&& resp matches OrchestratorResponse::Ack(a)
                &&& a.driver_id matches Some(id)
                &&& is_v4_uuid(id)
                &&& final(pool).entries() == upsert(
                    old(pool).entries(),
                    DriverEntry {
                        id,
                        state: DriverState::Active,
                        last_heartbeat_us: now_us,
                        capabilities: req.capabilities,
                    },
                )
            } else {
                &&& resp matches OrchestratorResponse::RegisterRejected(r)
                &&& r.reason@ == capacity_message(
                    old(pool).entries().len(),
                    old(pool).max_drivers(),
                )
                &&& final(pool).entries() == old(pool).entries()
            },
            DriverMessage::Heartbeat(req) => if has_id(old(pool).entries(), req.driver_id) {
                &&& resp == OrchestratorResponse::Ack(AckResponse { driver_id: None })
                &&& final(pool).entries() == heartbeat_applied(
                    old(pool).entries(),
                    req.driver_id,
                    now_us,
                )
            } else {
                &&& resp matches OrchestratorResponse::Error(e)
                &&& e.message@ == not_found_message(req.driver_id)
                &&& final(pool).entries() == old(pool).entries()
            },
            DriverMessage::Deregister(req) => if has_id(old(pool).entries(), req.driver_id) {
                &&& resp == OrchestratorResponse::Ack(AckResponse { driver_id: None })
                &&& final(pool).entries() == old(pool).entries().remove(
                    index_in(old(pool).entries(), req.driver_id),
                )
            } else {
                &&& resp matches OrchestratorResponse::Error(e)
                &&& e.message@ == not_found_message(req.driver_id)
                &&& final(pool).entries() == old(pool).entries()
            },
            DriverMessage::CommandAck(_) => {
                &&& resp matches OrchestratorResponse::Error(e)
                &&& e.message@ == stray_ack_message()
                &&& final(pool).entries() == old(pool).entries()
            },
        },
{
    match msg {
        DriverMessage::Register(req) => match pool.register(req.capabilities, now_us) {
            Ok(driver_id) => OrchestratorResponse::Ack(AckResponse { driver_id: Some(driver_id) }),
            Err(reason) => OrchestratorResponse::RegisterRejected(RegisterRejectedResponse { reason }),
        },
        DriverMessage::Heartbeat(req) => match pool.heartbeat(req.driver_id, now_us) {
            Ok(_) => OrchestratorResponse::Ack(AckResponse { driver_id: None }),
            Err(message) => OrchestratorResponse::Error(ErrorResponse { message }),
        },
        DriverMessage::Deregister(req) => match pool.deregister(req.driver_id) {
            Ok(_) => OrchestratorResponse::Ack(AckResponse { driver_id: None }),
            Err(message) => OrchestratorResponse::Error(ErrorResponse { message }),
        },
        DriverMessage::CommandAck(_) => {
            let mut message = String::new();
            push_str(&mut message, "CommandAck handled at the connection layer");
            OrchestratorResponse::Error(ErrorResponse { message })
        },
    }
}

/// The driver whose command channel a connection opens after answering a
/// message: the one a `Register` was acknowledged with.
pub fn channel_opened(msg: &DriverMessage, resp: &OrchestratorResponse) -> (r: Option<DriverId>)
    ensures
        r == (match (msg, resp) {
            (DriverMessage::Register(_), OrchestratorResponse::Ack(a)) => a.driver_id,
            _ => None,
        }),
{
    match (msg, resp) {
        (DriverMessage::Register(_), OrchestratorResponse::Ack(a)) => a.driver_id,
        _ => None,
    }
}

/// The driver whose command channel a connection registered for
/// `connection_driver` closes after answering a message: its own driver,
/// once that driver's `Deregister` was acknowledged.
pub fn channel_closed(
    connection_driver: Option<DriverId>,
    msg: &DriverMessage,
    resp: &OrchestratorResponse,
) -> (r: Option<DriverId>)
    ensures
        r == (match (connection_driver, msg, resp) {
            (Some(own), DriverMessage::Deregister(d), OrchestratorResponse::Ack(_)) => if d.driver_id == own {
                Some(own)
            } else {
                None
            },
            _ => None,
        }),
{
    match (connection_driver, msg, resp) {
        (Some(own), DriverMessage::Deregister(d), OrchestratorResponse::Ack(_)) => {
            if d.driver_id == own {
                Some(own)
            } else {
                None
            }
        },
        _ => None,
    }
}

} // verus!
