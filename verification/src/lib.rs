//! Tandem: a human-controlled coding assistant controller. An agent builds proposals in a
//! private shadow working tree; the human tours them, refines them, and alone decides
//! what enters the real working tree.
//!
//! The library holds the controller's session state machine (`controller`, `steps`,
//! `operations`, `transitions`), the three-way snapshot merge (`workspace`), the world of
//! answers that the operations read from and the writes they order (`world`), tour
//! validation, diff hunks and Git listings (`hunks`, `listing`), the request handling
//! decisions (`server`), the per-checkout registry (`session`), the agents' capabilities
//! and the offline demonstration agent (`agent`, `sandbox`), and what the Codex
//! app-server is told and tells (`codex`).
pub mod retry;
pub mod text;
pub mod paths;
pub mod snapshot;
pub mod workspace;
pub mod listing;
pub mod hunks;
pub mod world;
pub mod error;
pub mod protocol;
pub mod agent;
pub mod sandbox;
pub mod codex;
pub mod controller;
pub mod steps;
pub mod operations;
pub mod transitions;
pub mod server;
pub mod session;
