//! The per-connection logic: message framing, users, their addresses and the
//! session protocol a connection follows.

pub mod connection_handles;
pub mod message;
pub mod user;
pub mod user_ip;
