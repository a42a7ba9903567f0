//! A signaling relay: connections meet in named rooms, and what one member
//! sends is handed to every other member of its room.

pub mod channel;
pub mod envelope;
pub mod identity;
pub mod json;
pub mod laws;
pub mod registry;
pub mod session;
