//! Verified core of a WebSocket load-testing tool: the statistics it keeps,
//! the decisions a client connection and the echo server take on each event,
//! and the normalisation of the target URL.

pub mod text;
pub mod types;
pub mod stats;
pub mod ports;
pub mod session;
pub mod load_tester;
pub mod server;
