//! Verified core of a snapshot-based backup orchestrator.
//!
//! The crate covers two subsystems: a transactional action runner that
//! guarantees reverse-order cleanup of every action that was performed, and
//! a ZFS-style replication engine (inventory parsing, incremental clone
//! planning, and population-count based snapshot retention).  External tools
//! are invoked by the surrounding program; this library computes the exact
//! command lines, parses their output, and decides every step.

pub mod actions;
pub mod config;
pub mod errors;
pub mod fstest;
pub mod text;
pub mod zfs;

pub use errors::Error;
