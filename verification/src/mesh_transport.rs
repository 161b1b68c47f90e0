//! Peer-to-peer mesh networking: quality of service, security and backends.

pub mod error;
pub mod qos;
pub mod security;
pub mod connection;
pub mod discovery;
pub mod transport;
pub mod webrtc_backend;
pub mod laws;
