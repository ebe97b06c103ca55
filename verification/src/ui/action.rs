//! The actions that a key press can ask of the client.

use vstd::prelude::*;

verus! {

/// Something for the client to do.
#[derive(Debug, Clone, Copy, PartialEq, Eq, Structural)]
pub enum AppAction {
    InputEscape,
    InputSubmit,
    InputBackspace,
    SelectPrevious,
    SelectNext,
    InputChar(char),
    SelectEmoji,
}

} // verus!
