//! A chat room core: messages and their wire rendering, the shared history,
//! the broadcast hub with bounded inboxes, the heartbeat monitor and the
//! per-connection state machine that ties them together.

pub mod text;
pub mod clock;
pub mod message;
pub mod history;
pub mod hub;
pub mod heartbeat;
pub mod room;
pub mod connection;
