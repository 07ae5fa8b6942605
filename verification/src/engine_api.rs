//! The run configuration an embedding orchestrator hands to a swarm
//! engine.

use crate::config::{Backend, SwarmMode};
use vstd::prelude::*;

verus! {

/// Backend choice exposed to embedding callers.
pub type SwarmBackend = Backend;

/// Distribution choice exposed to embedding callers.
pub type SwarmDistribution = SwarmMode;

/// What an embedding caller asks a swarm run to do.
#[derive(Debug, Clone, Copy, PartialEq, Eq, Structural)]
pub struct EngineRunConfig {
    pub players: u32,
    pub tick_rate: u32,
    pub duration_secs: u64,
    pub backend: SwarmBackend,
    pub mode: SwarmDistribution,
}

} // verus!
