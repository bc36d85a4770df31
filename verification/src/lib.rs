//! Verified core of the Operoid studio: schema packs, file classification, brain registry,
//! command planning for the gbrain CLI, the bridge's configuration and mail channel, and the
//! server's authentication and operation log.
use vstd::prelude::*;

pub mod text;
pub mod l10n;
pub mod factory_types;
pub mod auth;
pub mod classifier;
pub mod prereq;
pub mod app_config;
pub mod brains;
pub mod gbrain_cli;
pub mod contract;
pub mod bridge_config;
pub mod percent;
pub mod email;
pub mod operations;
pub mod scheduler;
pub mod companies;
pub mod factories;
pub mod event_bus;
pub mod service;
pub mod tools;
pub mod write_note;
pub mod llm;
pub mod bridge;
pub mod server;
pub mod mcp;

verus! {
}
