//! Client-side JSON-RPC 2.0 protocol engine.
//!
//! The central type is [`handler::Handler`]: given a transport able to carry
//! text frames, it assigns unique identifiers to outgoing calls, serializes
//! their request envelopes, correlates incoming responses with the calls that
//! await them, and surfaces notifications and protocol irregularities as an
//! ordered event queue.

pub mod api;
pub mod config;
pub mod decoder;
pub mod encoder;
pub mod error;
pub mod handler;
pub mod json;
pub mod messages;
pub mod pending;
pub mod text;
pub mod transport;

pub use handler::Handler;
pub use handler::IdGenerator;
pub use messages::Id;
pub use transport::Transport;
