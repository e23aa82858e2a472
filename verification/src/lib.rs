//! Verified core of a Kubernetes rollout companion: it patches a workload's
//! image tag in its manifest and watches the rollout, tailing logs from the
//! pods being replaced and the pods replacing them.
//!
//! The crate verifies the logic itself — classification of pods into old and
//! new generation, best-effort log parsing, bounded display buffers, the
//! discovery/render state machine, manifest editing, and registry output
//! parsing — while terminal drawing, cluster I/O and process spawning live in
//! the unverified shell around it.

pub mod blueprint;
pub mod buffer;
pub mod classify;
pub mod config;
pub mod logparse;
pub mod registry;
pub mod render;
pub mod resolve;
pub mod session;
pub mod tailset;
pub mod text;
