//! Wyoming protocol voice services: framing, events, dispatch and clients.

pub mod bytes;
pub mod client;
pub mod engine;
pub mod error;
pub mod event;
pub mod handler;
pub mod header;
pub mod json;
pub mod say;
pub mod schema;
pub mod server;
pub mod speechd;
pub mod table;
pub mod text;
pub mod wire;
