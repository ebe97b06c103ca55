//! From what the terminal reports to what the client does with it.

use vstd::prelude::*;
use crate::ui::action::AppAction;

verus! {

/// How a key is reported: as it goes down, while it is held, as it goes up.
#[derive(Debug, Clone, Copy, PartialEq, Eq, Structural)]
pub enum KeyKind {
    Press,
    Repeat,
    Release,
}

/// The key that is reported. `Other` stands for every key without a meaning
/// here.
#[derive(Debug, Clone, Copy, PartialEq, Eq, Structural)]
pub enum Key {
    Esc,
    Enter,
    Backspace,
    Up,
    Down,
    Char(char),
    Other,
}

/// What the input loop is woken by.
#[derive(Debug, Clone, Copy, PartialEq, Eq, Structural)]
pub enum InputEvent {
    /// The client shuts down.
    Shutdown,
    /// The terminal reports a key.
    Key(KeyKind, Key),
    /// The terminal reports something else, or nothing.
    Idle,
}

/// What the input loop does next.
#[derive(Debug, Clone, Copy, PartialEq, Eq, Structural)]
pub enum InputStep {
    /// End the loop.
    Stop,
    /// Hand the action to the client and go on.
    Send(AppAction),
    /// Go on.
    Wait,
}

/// The action that a key asks for. Only a key that goes down asks for one.
pub open spec fn key_action(kind: KeyKind, key: Key) -> Option<AppAction> {
    if kind == KeyKind::Press {
        match key {
            Key::Esc => Some(AppAction::InputEscape),
            Key::Enter => Some(AppAction::InputSubmit),
            Key::Backspace => Some(AppAction::InputBackspace),
            Key::Up => Some(AppAction::SelectPrevious),
            Key::Down => Some(AppAction::SelectNext),
            Key::Char(c) => Some(AppAction::InputChar(c)),
            Key::Other => None,
        }
    } else {
        None
    }
}

/// What the input loop does on an event: it ends when the client shuts down,
/// hands on the action of a key that asks for one, and else goes on.
pub open spec fn input_step(event: InputEvent) -> InputStep {
    match event {
        InputEvent::Shutdown => InputStep::Stop,
        InputEvent::Key(kind, key) => match key_action(kind, key) {
            Some(action) => InputStep::Send(action),
            None => InputStep::Wait,
        },
        InputEvent::Idle => InputStep::Wait,
    }
}

/// The action that a key asks for.
pub fn action_for_key(kind: KeyKind, key: Key) -> (action: Option<AppAction>)
    ensures
        action == key_action(kind, key),
{
    match kind {
        KeyKind::Press => match key {
            Key::Esc => Some(AppAction::InputEscape),
            Key::Enter => Some(AppAction::InputSubmit),
            Key::Backspace => Some(AppAction::InputBackspace),
            Key::Up => Some(AppAction::SelectPrevious),
            Key::Down => Some(AppAction::SelectNext),
            Key::Char(c) => Some(AppAction::InputChar(c)),
            Key::Other => None,
        },
        _ => None,
    }
}

/// What the input loop does on an event.
pub fn next_input_step(event: InputEvent) -> (step: InputStep)
    ensures
        step == input_step(event),
{
    match event {
        InputEvent::Shutdown => InputStep::Stop,
        InputEvent::Key(kind, key) => match action_for_key(kind, key) {
            Some(action) => InputStep::Send(action),
            None => InputStep::Wait,
        },
        InputEvent::Idle => InputStep::Wait,
    }
}

} // verus!
