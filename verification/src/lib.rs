//! An HTTP/2 protocol engine: frame codec, connection engine, session and
//! stream state, and the client and server adapters built on them.

pub mod http;
pub mod server;

