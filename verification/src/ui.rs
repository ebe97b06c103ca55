//! What the client does on a key press.

pub mod action;
pub mod clock;
pub mod events;
pub mod motion;
pub mod vim;
