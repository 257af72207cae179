//! A multiplexed GraphQL-over-WebSocket subscription client core.
//!
//! One physical connection carries many independent event streams
//! ("subscriptions"), each identified by an id.  This crate holds the
//! protocol logic: the wire-envelope codec, the subscription registry,
//! the connection state machine with its pending-command queue, and the
//! error taxonomy.  Transport I/O (the WebSocket itself, the HTTP
//! query executor) lives outside, driven through the effect lists that
//! the state machine returns.

pub mod codec;
pub mod error;
pub mod ids;
pub mod json;
pub mod manager;
pub mod registry;
pub mod types;

pub use codec::ProtocolMessage;
pub use error::{WinCCError, WinCCResult};
pub use ids::IdGen;
pub use json::JsonValue;
pub use manager::{Command, ConnState, Effect, Manager, PendingSub};
pub use registry::{CallbackInfo, Registry};
