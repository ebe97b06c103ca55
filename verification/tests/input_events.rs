use guildchat::ui::action::AppAction;
use guildchat::ui::events::{action_for_key, next_input_step, InputEvent, InputStep, Key, KeyKind};

#[test]
fn pressed_keys_ask_for_their_action() {
    assert_eq!(action_for_key(KeyKind::Press, Key::Esc), Some(AppAction::InputEscape));
    assert_eq!(action_for_key(KeyKind::Press, Key::Enter), Some(AppAction::InputSubmit));
    assert_eq!(action_for_key(KeyKind::Press, Key::Backspace), Some(AppAction::InputBackspace));
    assert_eq!(action_for_key(KeyKind::Press, Key::Up), Some(AppAction::SelectPrevious));
    assert_eq!(action_for_key(KeyKind::Press, Key::Down), Some(AppAction::SelectNext));
    assert_eq!(action_for_key(KeyKind::Press, Key::Char('q')), Some(AppAction::InputChar('q')));
    assert_eq!(action_for_key(KeyKind::Press, Key::Char('é')), Some(AppAction::InputChar('é')));
}

#[test]
fn keys_without_a_meaning_ask_for_nothing() {
    assert_eq!(action_for_key(KeyKind::Press, Key::Other), None);
}

#[test]
fn held_and_released_keys_ask_for_nothing() {
    let keys =
        [Key::Esc, Key::Enter, Key::Backspace, Key::Up, Key::Down, Key::Char('a'), Key::Other];
    for kind in [KeyKind::Repeat, KeyKind::Release] {
        for key in keys {
            assert_eq!(action_for_key(kind, key), None);
        }
    }
}

#[test]
fn shutdown_stops_the_loop() {
    assert_eq!(next_input_step(InputEvent::Shutdown), InputStep::Stop);
}

#[test]
fn a_pressed_key_is_handed_on() {
    assert_eq!(
        next_input_step(InputEvent::Key(KeyKind::Press, Key::Enter)),
        InputStep::Send(AppAction::InputSubmit)
    );
    assert_eq!(
        next_input_step(InputEvent::Key(KeyKind::Press, Key::Char(':'))),
        InputStep::Send(AppAction::InputChar(':'))
    );
}

#[test]
fn everything_else_lets_the_loop_go_on() {
    assert_eq!(next_input_step(InputEvent::Idle), InputStep::Wait);
    assert_eq!(next_input_step(InputEvent::Key(KeyKind::Press, Key::Other)), InputStep::Wait);
    assert_eq!(next_input_step(InputEvent::Key(KeyKind::Release, Key::Enter)), InputStep::Wait);
    assert_eq!(next_input_step(InputEvent::Key(KeyKind::Repeat, Key::Char('a'))), InputStep::Wait);
}
