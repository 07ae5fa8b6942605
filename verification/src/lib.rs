//! Verified core of the arcane swarm load driver and its orchestrator:
//! the driver registry, command dispatch bookkeeping, telemetry snapshots
//! and their archive names, the orchestrator's options and HTTP request
//! handling, validity gating, tier ramps, swarm metrics, burst scheduling,
//! the frame decode cache, payload generation, and the SpacetimeDB demo
//! module's tables, inventory and event rules.

pub mod actions;
pub mod burst;
pub mod command_dispatcher;
pub mod config;
pub mod control;
pub mod delta_cache;
pub mod demo_module;
pub mod driver_pool;
pub mod http_api;
pub mod engine_api;
pub mod ids;
pub mod metrics;
pub mod orchestrated_mode;
pub mod orchestration;
pub mod orchestrator_args;
pub mod player_loops;
pub mod protocol;
pub mod reporter;
pub mod runtime;
pub mod server;
pub mod stats_collector;
pub mod telemetry;
pub mod telemetry_archive;
pub mod tier_ramp_coordinator;
pub mod validity_gate;
pub mod words;
pub mod wire_payload;
pub mod seqs;
pub mod text;
