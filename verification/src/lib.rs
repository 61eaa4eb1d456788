//! Supervisor for a fixed set of locally run development services: a static
//! service registry, a best-effort process tracker, dependency-aware start and
//! stop planning, health-check evaluation, and the periodic auto-restart
//! decision logic. All OS interaction (process launch and termination, process
//! table snapshots, network probes) happens outside this crate; the library
//! takes those observations as plain values and is verified over them.

pub mod text;
pub mod types;
pub mod registry;
mod clock;
pub mod tracker;
pub mod status;
pub mod orchestrator;
pub mod health;
pub mod monitor;
pub mod logs;
pub mod models;
