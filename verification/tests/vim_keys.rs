use guildchat::ui::action::AppAction;
use guildchat::ui::motion::VimMotion;
use guildchat::ui::vim::{
    apply_vim_key, clamp_cursor, execute_operator, get_motion_range, handle_vim_keys, EditorState,
    InputMode, VimOperator, VimState, OPERATOR_TIMEOUT_SECS,
};
use std::time::{Duration, Instant};

fn vim(operator: Option<VimOperator>, at: Instant) -> VimState {
    VimState { operator, pending_keys: String::new(), last_action_time: at }
}

fn line(text: &str, cursor: usize) -> EditorState {
    EditorState {
        input: text.chars().collect(),
        cursor_position: cursor,
        mode: InputMode::Normal,
        vim_state: Some(vim(None, Instant::now())),
    }
}

fn waiting(text: &str, cursor: usize, operator: VimOperator) -> EditorState {
    let mut state = line(text, cursor);
    state.vim_state = Some(vim(Some(operator), Instant::now()));
    state
}

fn text(state: &EditorState) -> String {
    state.input.iter().collect()
}

fn operator(state: &EditorState) -> Option<VimOperator> {
    state.vim_state.as_ref().expect("normal mode remembers").operator
}

/// Presses the keys one after the other, none of them late.
fn press(state: &mut EditorState, keys: &str) -> Vec<Option<AppAction>> {
    keys.chars().map(|c| apply_vim_key(state, c, 0, Instant::now())).collect()
}

#[test]
fn timeout_is_one_second() {
    assert_eq!(OPERATOR_TIMEOUT_SECS, 1);
}

#[test]
fn clamp_cursor_puts_the_cursor_on_a_character() {
    let mut state = line("abc", 3);
    clamp_cursor(&mut state);
    assert_eq!(state.cursor_position, 2);
    let mut state = line("abc", 9);
    clamp_cursor(&mut state);
    assert_eq!(state.cursor_position, 2);
    let mut state = line("abc", 1);
    clamp_cursor(&mut state);
    assert_eq!(state.cursor_position, 1);
    let mut state = line("", 4);
    clamp_cursor(&mut state);
    assert_eq!(state.cursor_position, 0);
    assert_eq!(text(&state), "");
}

#[test]
fn motion_range_starts_at_the_cursor() {
    assert_eq!(get_motion_range(&line("hello world", 0), VimMotion::WordForward), (0, 6));
    assert_eq!(get_motion_range(&line("hello world", 8), VimMotion::WordBackward), (8, 6));
    assert_eq!(get_motion_range(&line("hello world", 3), VimMotion::Line), (3, 11));
    assert_eq!(get_motion_range(&line("hello world", 3), VimMotion::CharRight), (3, 4));
    assert_eq!(get_motion_range(&line("hello world", 3), VimMotion::CharLeft), (3, 2));
    assert_eq!(get_motion_range(&line("hello world", 3), VimMotion::StartOfLine), (3, 0));
    assert_eq!(get_motion_range(&line("hello world", 3), VimMotion::EndOfLine), (3, 11));
    assert_eq!(get_motion_range(&line("hello\tworld", 0), VimMotion::WordForward), (0, 6));
}

#[test]
fn delete_takes_the_range_out_in_either_order() {
    let mut state = line("hello world", 3);
    execute_operator(&mut state, VimOperator::Delete, (0, 6));
    assert_eq!(text(&state), "world");
    assert_eq!(state.cursor_position, 0);

    let mut state = line("hello world", 3);
    execute_operator(&mut state, VimOperator::Delete, (8, 6));
    assert_eq!(text(&state), "hello rld");
    assert_eq!(state.cursor_position, 6);

    let mut state = line("hello world", 3);
    execute_operator(&mut state, VimOperator::Delete, (5, 11));
    assert_eq!(text(&state), "hello");
    assert_eq!(state.cursor_position, 5);

    let mut state = line("hello world", 3);
    execute_operator(&mut state, VimOperator::Delete, (0, 11));
    assert_eq!(text(&state), "");
    assert_eq!(state.cursor_position, 0);
}

#[test]
fn delete_of_an_empty_range_changes_nothing() {
    let mut state = line("hello", 3);
    execute_operator(&mut state, VimOperator::Delete, (2, 2));
    assert_eq!(text(&state), "hello");
    assert_eq!(state.cursor_position, 3);
    // Also behind the line, where nothing would be read.
    execute_operator(&mut state, VimOperator::Delete, (9, 9));
    assert_eq!(text(&state), "hello");
    assert_eq!(state.cursor_position, 3);
}

#[test]
fn change_and_yank_change_nothing() {
    for op in [VimOperator::Change, VimOperator::Yank] {
        let mut state = line("hello world", 3);
        execute_operator(&mut state, op, (0, 6));
        assert_eq!(text(&state), "hello world");
        assert_eq!(state.cursor_position, 3);
        execute_operator(&mut state, op, (20, 30));
        assert_eq!(text(&state), "hello world");
    }
}

#[test]
fn insert_keys_change_mode_and_cursor() {
    let mut state = line("hello", 2);
    assert_eq!(press(&mut state, "i"), [None]);
    assert_eq!((state.mode, state.cursor_position), (InputMode::Insert, 2));

    let mut state = line("hello", 2);
    press(&mut state, "I");
    assert_eq!((state.mode, state.cursor_position), (InputMode::Insert, 0));

    let mut state = line("hello", 2);
    press(&mut state, "a");
    assert_eq!((state.mode, state.cursor_position), (InputMode::Insert, 3));

    let mut state = line("hello", 5);
    press(&mut state, "a");
    assert_eq!((state.mode, state.cursor_position), (InputMode::Insert, 5));

    let mut state = line("hello", 2);
    press(&mut state, "A");
    assert_eq!((state.mode, state.cursor_position), (InputMode::Insert, 5));
    assert_eq!(text(&state), "hello");
}

#[test]
fn selection_keys_ask_the_client() {
    let mut state = line("hello", 2);
    assert_eq!(
        press(&mut state, "jk:"),
        [
            Some(AppAction::SelectNext),
            Some(AppAction::SelectPrevious),
            Some(AppAction::SelectEmoji)
        ]
    );
    assert_eq!(text(&state), "hello");
    assert_eq!(state.cursor_position, 2);
    assert_eq!(state.mode, InputMode::Normal);
}

#[test]
fn selection_keys_leave_a_waiting_operator() {
    let mut state = waiting("hello", 2, VimOperator::Delete);
    press(&mut state, "j");
    assert_eq!(operator(&state), Some(VimOperator::Delete));
}

#[test]
fn h_and_l_move_inside_the_line() {
    let mut state = line("abc", 1);
    press(&mut state, "h");
    assert_eq!(state.cursor_position, 0);
    press(&mut state, "h");
    assert_eq!(state.cursor_position, 0);
    press(&mut state, "ll");
    assert_eq!(state.cursor_position, 2);
    press(&mut state, "l");
    assert_eq!(state.cursor_position, 2);
    let mut empty = line("", 0);
    press(&mut empty, "lh");
    assert_eq!(empty.cursor_position, 0);
}

#[test]
fn h_steps_back_from_behind_the_line() {
    let mut state = line("abc", 7);
    press(&mut state, "h");
    assert_eq!(state.cursor_position, 6);
    press(&mut state, "l");
    assert_eq!(state.cursor_position, 6);
}

#[test]
fn w_moves_to_the_next_word_and_onto_a_character() {
    let mut state = line("hello world", 0);
    assert_eq!(press(&mut state, "w"), [None]);
    assert_eq!(state.cursor_position, 6);
    press(&mut state, "w");
    assert_eq!(state.cursor_position, 10);
    press(&mut state, "w");
    assert_eq!(state.cursor_position, 10);
    assert_eq!(text(&state), "hello world");

    let mut empty = line("", 0);
    press(&mut empty, "w");
    assert_eq!(empty.cursor_position, 0);

    let mut behind = line("abc", 8);
    press(&mut behind, "w");
    assert_eq!(behind.cursor_position, 2);
}

#[test]
fn b_moves_to_the_word_before() {
    let mut state = line("hello world", 11);
    press(&mut state, "b");
    assert_eq!(state.cursor_position, 6);
    press(&mut state, "b");
    assert_eq!(state.cursor_position, 0);
    press(&mut state, "b");
    assert_eq!(state.cursor_position, 0);
    assert_eq!(text(&state), "hello world");
}

#[test]
fn x_deletes_the_character_under_the_cursor() {
    let mut state = line("abc", 1);
    press(&mut state, "x");
    assert_eq!((text(&state).as_str(), state.cursor_position), ("ac", 1));
    press(&mut state, "x");
    assert_eq!((text(&state).as_str(), state.cursor_position), ("a", 0));
    press(&mut state, "x");
    assert_eq!((text(&state).as_str(), state.cursor_position), ("", 0));
    press(&mut state, "x");
    assert_eq!((text(&state).as_str(), state.cursor_position), ("", 0));

    let mut at_end = line("abc", 3);
    press(&mut at_end, "x");
    assert_eq!((text(&at_end).as_str(), at_end.cursor_position), ("abc", 3));
}

#[test]
fn d_waits_for_a_motion() {
    let mut state = line("hello world", 0);
    let before = Instant::now();
    press(&mut state, "d");
    assert_eq!(operator(&state), Some(VimOperator::Delete));
    assert!(state.vim_state.as_ref().unwrap().last_action_time >= before);
    assert_eq!(text(&state), "hello world");
}

#[test]
fn d_records_the_moment_it_is_given() {
    let mut state = line("hello", 0);
    let then = Instant::now() - Duration::from_secs(30);
    state.vim_state = Some(vim(None, then));
    let now = Instant::now();
    apply_vim_key(&mut state, 'd', 0, now);
    assert_eq!(state.vim_state.as_ref().unwrap().last_action_time, now);
    // Other keys leave the moment alone.
    let mut state = line("hello", 0);
    state.vim_state = Some(vim(None, then));
    apply_vim_key(&mut state, 'h', 0, now);
    assert_eq!(state.vim_state.as_ref().unwrap().last_action_time, then);
}

#[test]
fn dw_deletes_to_the_next_word() {
    let mut state = line("hello world", 0);
    assert_eq!(press(&mut state, "dw"), [None, None]);
    assert_eq!((text(&state).as_str(), state.cursor_position), ("world", 0));
    assert_eq!(operator(&state), None);

    let mut state = line("hello world", 8);
    press(&mut state, "dw");
    assert_eq!((text(&state).as_str(), state.cursor_position), ("hello wo", 8));

    let mut state = line("hello", 5);
    press(&mut state, "dw");
    assert_eq!((text(&state).as_str(), state.cursor_position), ("hello", 5));
    assert_eq!(operator(&state), None);
}

#[test]
fn db_deletes_to_the_word_before() {
    let mut state = line("hello world", 6);
    press(&mut state, "db");
    assert_eq!((text(&state).as_str(), state.cursor_position), ("world", 0));
    assert_eq!(operator(&state), None);

    let mut state = line("hello world", 9);
    press(&mut state, "db");
    assert_eq!((text(&state).as_str(), state.cursor_position), ("hello ld", 6));

    let mut state = line("hello", 0);
    press(&mut state, "db");
    assert_eq!((text(&state).as_str(), state.cursor_position), ("hello", 0));
    assert_eq!(operator(&state), None);
}

#[test]
fn dd_empties_the_line() {
    let mut state = line("hello world", 4);
    press(&mut state, "dd");
    assert_eq!((text(&state).as_str(), state.cursor_position), ("", 0));
    assert_eq!(operator(&state), None);
    assert_eq!(state.mode, InputMode::Normal);
}

#[test]
fn d_after_another_operator_makes_delete_wait() {
    let mut state = waiting("hello", 2, VimOperator::Yank);
    press(&mut state, "d");
    assert_eq!(operator(&state), Some(VimOperator::Delete));
    assert_eq!(text(&state), "hello");
}

#[test]
fn motion_after_change_or_yank_only_ends_the_wait() {
    for op in [VimOperator::Change, VimOperator::Yank] {
        let mut state = waiting("hello world", 0, op);
        press(&mut state, "w");
        assert_eq!((text(&state).as_str(), state.cursor_position), ("hello world", 0));
        assert_eq!(operator(&state), None);
        let mut state = waiting("hello world", 8, op);
        press(&mut state, "b");
        assert_eq!((text(&state).as_str(), state.cursor_position), ("hello world", 8));
        assert_eq!(operator(&state), None);
    }
}

#[test]
fn any_other_key_forgets_operator_and_pending_keys() {
    let mut state = waiting("hello", 2, VimOperator::Delete);
    state.vim_state.as_mut().unwrap().pending_keys = "d".to_string();
    assert_eq!(press(&mut state, "z"), [None]);
    assert_eq!(operator(&state), None);
    assert_eq!(state.vim_state.as_ref().unwrap().pending_keys, "");
    assert_eq!((text(&state).as_str(), state.cursor_position), ("hello", 2));
    assert_eq!(state.mode, InputMode::Normal);
}

#[test]
fn keys_with_a_meaning_keep_pending_keys_and_operator() {
    let mut state = waiting("hello", 2, VimOperator::Delete);
    state.vim_state.as_mut().unwrap().pending_keys = "d".to_string();
    press(&mut state, "hlx");
    assert_eq!(operator(&state), Some(VimOperator::Delete));
    assert_eq!(state.vim_state.as_ref().unwrap().pending_keys, "d");
}

#[test]
fn normal_mode_starts_to_remember_on_the_first_key() {
    let mut state = line("hello", 0);
    state.vim_state = None;
    let now = Instant::now();
    apply_vim_key(&mut state, 'l', 0, now);
    let remembered = state.vim_state.as_ref().expect("set up by the first key");
    assert_eq!(remembered.operator, None);
    assert_eq!(remembered.pending_keys, "");
    assert_eq!(remembered.last_action_time, now);
    assert_eq!(state.cursor_position, 1);

    let mut state = line("hello", 0);
    state.vim_state = None;
    press(&mut state, "dw");
    assert_eq!(text(&state), "");
}

#[test]
fn operator_is_forgotten_after_the_timeout() {
    let mut state = waiting("hello world", 0, VimOperator::Delete);
    state.vim_state.as_mut().unwrap().pending_keys = "d".to_string();
    apply_vim_key(&mut state, 'w', 1, Instant::now());
    assert_eq!((text(&state).as_str(), state.cursor_position), ("hello world", 6));
    assert_eq!(operator(&state), None);
    assert_eq!(state.vim_state.as_ref().unwrap().pending_keys, "");

    let mut state = waiting("hello world", 0, VimOperator::Delete);
    apply_vim_key(&mut state, 'd', 3600, Instant::now());
    assert_eq!(text(&state), "hello world");
    assert_eq!(operator(&state), Some(VimOperator::Delete));
}

#[test]
fn operator_is_kept_before_the_timeout() {
    let mut state = waiting("hello world", 0, VimOperator::Delete);
    apply_vim_key(&mut state, 'w', 0, Instant::now());
    assert_eq!(text(&state), "world");
}

#[test]
fn pending_keys_outlast_the_timeout_where_no_operator_waits() {
    let mut state = line("hello", 0);
    state.vim_state.as_mut().unwrap().pending_keys = "g".to_string();
    apply_vim_key(&mut state, 'l', 99, Instant::now());
    assert_eq!(state.vim_state.as_ref().unwrap().pending_keys, "g");
}

#[test]
fn handle_vim_keys_reads_the_clock() {
    let mut fresh = waiting("hello world", 0, VimOperator::Delete);
    assert_eq!(handle_vim_keys(&mut fresh, 'w'), None);
    assert_eq!(text(&fresh), "world");

    let mut stale = waiting("hello world", 0, VimOperator::Delete);
    stale.vim_state.as_mut().unwrap().last_action_time = Instant::now() - Duration::from_secs(5);
    assert_eq!(handle_vim_keys(&mut stale, 'w'), None);
    assert_eq!((text(&stale).as_str(), stale.cursor_position), ("hello world", 6));
    assert_eq!(operator(&stale), None);
}

#[test]
fn handle_vim_keys_hands_back_the_action() {
    let mut state = line("hello", 0);
    assert_eq!(handle_vim_keys(&mut state, 'j'), Some(AppAction::SelectNext));
    assert_eq!(handle_vim_keys(&mut state, 'k'), Some(AppAction::SelectPrevious));
    assert_eq!(handle_vim_keys(&mut state, ':'), Some(AppAction::SelectEmoji));
    assert_eq!(handle_vim_keys(&mut state, 'A'), None);
    assert_eq!((state.mode, state.cursor_position), (InputMode::Insert, 5));
}

#[test]
fn handle_vim_keys_starts_to_remember_now() {
    let mut state = line("hello", 0);
    state.vim_state = None;
    let before = Instant::now();
    handle_vim_keys(&mut state, 'd');
    let remembered = state.vim_state.as_ref().unwrap();
    assert_eq!(remembered.operator, Some(VimOperator::Delete));
    assert!(remembered.last_action_time >= before);
    assert!(remembered.last_action_time <= Instant::now());
}

#[test]
fn no_key_takes_the_cursor_out_of_the_line() {
    let texts = ["", "a", "hello world", "  two  words  ", "tab\tand\nline"];
    let keys = ['i', 'I', 'a', 'A', 'j', 'k', 'h', 'l', 'w', 'b', 'd', 'x', ':', 'z'];
    for t in texts {
        let len = t.chars().count();
        for cursor in 0..=len {
            for op in [None, Some(VimOperator::Delete), Some(VimOperator::Yank)] {
                for key in keys {
                    for elapsed in [0, 1] {
                        let mut state = line(t, cursor);
                        state.vim_state.as_mut().unwrap().operator = op;
                        apply_vim_key(&mut state, key, elapsed, Instant::now());
                        assert!(
                            state.cursor_position <= state.input.len(),
                            "{:?} at {} with {:?}, key {:?}",
                            t,
                            cursor,
                            op,
                            key
                        );
                    }
                }
            }
        }
    }
}

#[test]
fn vim_state_default_is_idle() {
    let before = Instant::now();
    let state = VimState::default();
    assert_eq!(state.operator, None);
    assert_eq!(state.pending_keys, "");
    assert!(state.last_action_time >= before);
}

#[test]
fn editor_state_clones_field_by_field() {
    let mut state = waiting("hello", 3, VimOperator::Change);
    state.mode = InputMode::Insert;
    state.vim_state.as_mut().unwrap().pending_keys = "c".to_string();
    let copy = state.clone();
    assert_eq!(copy.input, state.input);
    assert_eq!(copy.cursor_position, 3);
    assert_eq!(copy.mode, InputMode::Insert);
    let (a, b) = (copy.vim_state.unwrap(), state.vim_state.unwrap());
    assert_eq!(a.operator, Some(VimOperator::Change));
    assert_eq!(a.pending_keys, "c");
    assert_eq!(a.last_action_time, b.last_action_time);
}
