//! A chat server core for a link aggregator: it keeps the connected client
//! sessions and the rooms (one per post) they listen in, turns the client
//! requests into replies, and says who receives what.

pub mod chat;
pub mod operation;
pub mod json;
pub mod decimal;
pub mod protocol;
