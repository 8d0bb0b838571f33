//! The networked broadcast layer of a small real-time chat: the wire codec,
//! line framing, the presence table, the session registry and the decisions
//! of relay and participant, each with a machine-checked contract.

pub mod client;
pub mod codec;
pub mod framing;
pub mod gif;
pub mod json;
pub mod message;
pub mod presence;
pub mod relay;
pub mod roster;
pub mod stamps;
pub mod state;
pub mod tenor;
pub mod user;
