//! A transport-and-dispatch runtime for JSON-RPC language servers.
//!
//! The crate frames messages on a byte stream, models the JSON-RPC
//! envelope, dispatches requests and notifications to registered
//! handlers, correlates server-initiated round trips with their
//! responses, and drives the `initialize`/`shutdown` session lifecycle.
//! All of it is verified; the surrounding process (sockets, threads,
//! the parsing of inbound JSON text) lives outside the library.

pub mod backend;
pub mod channel;
pub mod dispatch;
pub mod framing;
pub mod json;
pub mod laws;
pub mod lifecycle;
pub mod message;
pub mod pending;
pub mod server;
