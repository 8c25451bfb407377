//! Verified core of the squaremap rendering backend: bridge session sequencing,
//! dirty-replay and world-enumeration validation, control and configuration
//! decisions, tile output helpers and the metrics registry.

pub mod metrics;
pub mod wire;
pub mod dirty_resync;
pub mod text;
pub mod idset;
pub mod scheduler;
pub mod session;
pub mod control;
pub mod png;
pub mod config;
pub mod radius;
pub mod paths;
pub mod console;
pub mod bootstrap;
pub mod assoc;
pub mod renders;
pub mod views;
pub mod bridge;
pub mod snapshot_client;
pub mod cli;
pub mod serve;
pub mod frontend;
pub mod sorting;
