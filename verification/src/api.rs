//! Records received from the chat service and the rules evaluated on them.

pub mod channel;
pub mod dm;
pub mod emoji;
pub mod hierarchy;
pub mod number;
pub mod permission;
pub mod user;
