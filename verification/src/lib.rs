//! The message-delivery and session core of a peer-to-peer chat node.
//!
//! Every node keeps its own chats and talks to its counterparts directly.
//! The handlers in this crate decide what a node does: each takes the state
//! and an event and leaves the new state and a list of effects, which the
//! caller performs. No handler reads a clock, a socket or a file: time and
//! nonces come in as arguments, so every handler is a function of its
//! arguments, and its contract says which.

pub mod api;
pub mod chat_id;
pub mod client;
pub mod clock;
pub mod codec;
pub mod files;
pub mod history;
pub mod keys;
pub mod laws;
pub mod lookup;
pub mod model;
pub mod multiplexer;
pub mod notification;
pub mod profile;
pub mod protocol;
pub mod queue;
pub mod requests;
pub mod search;
pub mod session;
pub mod state;
pub mod status;
pub mod store;
pub mod text;
pub mod tools;
pub mod wire;
