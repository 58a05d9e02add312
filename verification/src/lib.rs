//! Clipboard synchronisation engine.
//!
//! A device that changes its clipboard sends the new value to a relay, the
//! relay fans it out to every other device, and each of them applies it
//! locally. This crate holds the decisions of that engine, each with a
//! machine-checked contract; sockets, timers and the system clipboard are
//! left to the program around it.
//!
//! - [`content`]: the values that are synchronised and their envelope.
//! - [`fingerprint`]: the digest by which two values are compared.
//! - [`monitor`]: change detection, and what a clipboard backend reads and
//!   writes.
//! - [`sizing`], [`codec`]: fitting an image into the size limits, and its
//!   encoding for the wire.
//! - [`protocol`]: length-prefixed framing.
//! - [`outbox`], [`server`]: the relay's sessions and its fan-out.
//! - [`client`]: the client's connection state machine and outgoing queue.
//! - [`orchestrator`]: the capture and apply loops of both roles.

pub mod client;
pub mod codec;
pub mod content;
pub mod fingerprint;
pub mod monitor;
pub mod orchestrator;
pub mod outbox;
pub mod protocol;
pub mod server;
pub mod sizing;

pub use crate::client::SyncClient;
pub use crate::content::{ClipboardContent, ClipboardMessage};
pub use crate::monitor::ClipboardMonitor;
pub use crate::server::SyncServer;
