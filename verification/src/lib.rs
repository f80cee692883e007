//! Coordination core for multiple filesystem-scoped agents ("domains"):
//! a message router with sender validation and artifact hand-off, an
//! advisory lock manager with snapshot-based crash recovery, and the
//! pure decision logic of the watcher/dispatch loop.

pub mod artifact;
pub mod config;
pub mod errors;
pub mod event;
pub mod files;
pub mod kvmap;
pub mod lock;
pub mod message;
pub mod orchestrator;
pub mod router;
pub mod strutil;
pub mod types;
pub mod watcher;
