//! Verified core of a tool that keeps a Nix-built OpenGL driver symlink farm
//! in sync with the driver the running kernel exposes.
//!
//! The library holds the decision logic: driver detection from kernel text,
//! two-phase content-hash discovery from build-tool diagnostics, the persisted
//! hash cache and sync state with their JSON codecs, and the idempotent
//! install/uninstall step rules. The thin binary around it performs the file,
//! process and clock operations and hands their outcomes back as plain values.

pub mod cli;
pub mod detect;
pub mod errors;
pub mod hash_store;
pub mod json;
pub mod lifecycle;
pub mod render;
pub mod resolve;
pub mod service;
pub mod state;
pub mod text;
pub mod tmpfiles;
