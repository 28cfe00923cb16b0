//! The real-time gateway of a chat backend: envelopes, the topic bus
//! registry, the module registry with its delivery filter, and the decisions
//! of a connection's session, each stated and proved with Verus.

pub mod json;
pub mod envelope;
pub mod payload;
pub mod events;
pub mod bus;
pub mod state;
pub mod modules;
pub mod session;
pub mod laws;
pub mod auth;
