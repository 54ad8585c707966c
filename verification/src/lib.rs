//! Canary: object channels over the network, service discovery and
//! the wire formats that carry them.
pub mod discovery;
pub mod error;
pub mod wire;
pub mod framing;
pub mod outside;
pub mod noise;
pub mod cipher;
pub mod routes;
pub mod handshake;
pub mod text;
pub mod addr;
pub mod connect;
pub mod channel;
