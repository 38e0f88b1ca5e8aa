//! Synchronisation core of a multiplayer world server: which entities each
//! client is told about on every tick, and the binary messages that carry it.

pub mod interest;
pub mod map;
pub mod message;
pub mod session;
pub mod wire;
