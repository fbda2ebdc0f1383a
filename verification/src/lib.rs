//! Core of a local desktop coordinator: a background process that watches a
//! global keyboard shortcut, supervises a short-lived companion process,
//! exchanges length-framed messages with it over a local stream socket, and
//! resolves search queries into bang redirects or command matches.
//!
//! This crate holds the verified logic: the wire codec and framing, the
//! hotkey state machine, the process-supervision and retry state machines,
//! the query resolver, and the configuration rules. Socket, process and file
//! I/O live outside, driven by the decision functions defined here.

pub mod codec;
pub mod commands;
pub mod config;
pub mod errors;
pub mod hotkey;
pub mod ipc;
pub mod models;
pub mod popup;
pub mod process;
pub mod resolver;
pub mod settings;
pub mod text;

pub use errors::{ProtocolError, TransportError};
