pub mod handshake;
pub mod message;
pub mod connection;
pub mod manager;
