//! The LocalSend v2 protocol: its messages and the rules of its two sides.
pub mod client;
pub mod destination;
pub mod discovery;
pub mod ids;
pub mod prepare;
pub mod protocol;
pub mod server;
pub mod tls;
pub mod upload;
