//! Channel access control for a chat guild: resolves the permission bitmask a
//! member holds in a channel, decides whether the channel is visible, and
//! arranges a flat channel list into its category tree. Beside it stand the
//! rules by which the client turns key presses into actions and edits.

pub mod api;
pub mod ui;
