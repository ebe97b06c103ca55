//! Vim-style editing of the input line.
//!
//! In normal mode each key either moves the cursor, edits the line, changes
//! the mode, starts an operator that waits for a motion, or asks the client
//! for an action. An operator that has waited for a second or more is
//! forgotten before the next key is looked at.

use std::time::Instant;
use vstd::prelude::*;
use crate::ui::action::AppAction;
use crate::ui::motion::{
    blanks, blanks_of, lemma_motion_target_bounds, motion_defined, motion_end, motion_target,
    VimMotion,
};

verus! {

/// The whole seconds after which a waiting operator is forgotten.
pub const OPERATOR_TIMEOUT_SECS: u64 = 1;

/// An operator that waits for a motion to say what it works on.
#[derive(Debug, Clone, Copy, PartialEq, Eq, Structural)]
pub enum VimOperator {
    Delete,
    Change,
    Yank,
}

/// Whether keys edit the line as commands or are typed into it.
#[derive(Debug, Clone, Copy, PartialEq, Eq, Structural)]
pub enum InputMode {
    Normal,
    Insert,
}

/// What normal mode remembers between keys.
#[derive(Debug)]
pub struct VimState {
    pub operator: Option<VimOperator>,
    pub pending_keys: String,
    pub last_action_time: Instant,
}

/// A `VimState` as a mathematical value.
pub ghost struct VimStateView {
    pub operator: Option<VimOperator>,
    pub pending_keys: Seq<char>,
    pub last_action_time: Instant,
}

impl View for VimState {
    type V = VimStateView;

    open spec fn view(&self) -> VimStateView {
        VimStateView {
            operator: self.operator,
            pending_keys: self.pending_keys@,
            last_action_time: self.last_action_time,
        }
    }
}

impl DeepView for VimState {
    type V = VimStateView;

    open spec fn deep_view(&self) -> VimStateView {
        self@
    }
}

impl Clone for VimState {
    fn clone(&self) -> (res: Self)
        ensures
            res@ == self@,
    {
        VimState {
            operator: self.operator,
            pending_keys: self.pending_keys.clone(),
            last_action_time: self.last_action_time,
        }
    }
}

impl Default for VimState {
    /// No operator waits, no keys are pending, and the last action is now.
    fn default() -> (res: Self)
        ensures
            res.operator is None,
            res.pending_keys@ == Seq::<char>::empty(),
    {
        VimState { operator: None, pending_keys: String::new(), last_action_time: Instant::now() }
    }
}

/// The input line with its cursor, and what the keys make of it.
#[derive(Debug)]
pub struct EditorState {
    pub input: Vec<char>,
    pub cursor_position: usize,
    pub mode: InputMode,
    pub vim_state: Option<VimState>,
}

/// An `EditorState` as a mathematical value.
pub ghost struct EditorView {
    pub input: Seq<char>,
    pub cursor_position: usize,
    pub mode: InputMode,
    pub vim_state: Option<VimStateView>,
}

impl View for EditorState {
    type V = EditorView;

    open spec fn view(&self) -> EditorView {
        EditorView {
            input: self.input@,
            cursor_position: self.cursor_position,
            mode: self.mode,
            vim_state: self.vim_state.deep_view(),
        }
    }
}

impl Clone for EditorState {
    fn clone(&self) -> (res: Self)
        ensures
            res@ == self@,
    {
        EditorState {
            input: self.input.clone(),
            cursor_position: self.cursor_position,
            mode: self.mode,
            vim_state: match &self.vim_state {
                Some(vim) => Some(vim.clone()),
                None => None,
            },
        }
    }
}

/// The state with the cursor on a character of the line: at position 0 in an
/// empty line, and on the last character if it stood behind it.
pub open spec fn cursor_clamped(state: EditorView) -> EditorView {
    EditorView {
        cursor_position: if state.input.len() == 0 {
            0
        } else if state.cursor_position >= state.input.len() {
            (state.input.len() - 1) as usize
        } else {
            state.cursor_position
        },
        ..state
    }
}

/// Whether an operator can work on a range of the line. Text can be deleted
/// only where there is text.
pub open spec fn operator_defined(
    state: EditorView,
    operator: VimOperator,
    range: (usize, usize),
) -> bool {
    operator == VimOperator::Delete && range.0 != range.1 ==> range.0 <= state.input.len()
        && range.1 <= state.input.len()
}

/// The state after an operator has worked on the range between two
/// positions, given in either order. `Delete` takes the characters of the
/// range out of the line and puts the cursor where they stood; an empty range
/// changes nothing. `Change` and `Yank` change nothing.
pub open spec fn operator_applied(
    state: EditorView,
    operator: VimOperator,
    range: (usize, usize),
) -> EditorView {
    let low = if range.0 < range.1 {
        range.0
    } else {
        range.1
    };
    let high = if range.0 < range.1 {
        range.1
    } else {
        range.0
    };
    if operator == VimOperator::Delete && high > low {
        EditorView {
            input: state.input.subrange(0, low as int) + state.input.subrange(
                high as int,
                state.input.len() as int,
            ),
            cursor_position: low,
            ..state
        }
    } else {
        state
    }
}

/// The operator that waits in a state, if any.
pub open spec fn waiting_operator(state: EditorView) -> Option<VimOperator> {
    match state.vim_state {
        Some(vim) => vim.operator,
        None => None,
    }
}

/// The state with `operator` waiting, where normal mode remembers anything.
pub open spec fn with_operator(state: EditorView, operator: Option<VimOperator>) -> EditorView {
    match state.vim_state {
        Some(vim) => EditorView { vim_state: Some(VimStateView { operator, ..vim }), ..state },
        None => state,
    }
}

/// The state with no operator waiting and no keys pending.
pub open spec fn vim_reset(state: EditorView) -> EditorView {
    match state.vim_state {
        Some(vim) => EditorView {
            vim_state: Some(VimStateView { operator: None, pending_keys: Seq::empty(), ..vim }),
            ..state
        },
        None => state,
    }
}

/// The state in which the next key is looked at, `elapsed_secs` whole seconds
/// after the last action: a waiting operator is forgotten once the timeout
/// has passed, and normal mode starts to remember at `now` if it did not.
pub open spec fn made_ready(state: EditorView, elapsed_secs: u64, now: Instant) -> EditorView {
    let fresh = if waiting_operator(state) is Some && elapsed_secs >= OPERATOR_TIMEOUT_SECS {
        vim_reset(state)
    } else {
        state
    };
    if fresh.vim_state is None {
        EditorView {
            vim_state: Some(
                VimStateView { operator: None, pending_keys: Seq::empty(), last_action_time: now },
            ),
            ..fresh
        }
    } else {
        fresh
    }
}

/// The range that an operator works on after a motion: from the cursor to
/// where the motion ends.
pub open spec fn motion_range(state: EditorView, motion: VimMotion) -> (usize, usize) {
    (
        state.cursor_position,
        motion_target(blanks_of(state.input), state.cursor_position, motion) as usize,
    )
}

/// Whether a key can be handled in a state, `elapsed_secs` whole seconds
/// after the last action. `l` needs a cursor position that can be counted
/// up. `w` and `b` need the cursor inside the line or at its end where they
/// are to delete, and `b` needs a character to look at.
pub open spec fn vim_key_defined(state: EditorView, c: char, elapsed_secs: u64) -> bool {
    let operator = if elapsed_secs >= OPERATOR_TIMEOUT_SECS {
        None
    } else {
        waiting_operator(state)
    };
    let in_line = state.cursor_position <= state.input.len();
    if c == 'l' {
        state.cursor_position < usize::MAX
    } else if c == 'w' {
        operator == Some(VimOperator::Delete) ==> in_line
    } else if c == 'b' {
        if operator == Some(VimOperator::Delete) {
            in_line
        } else {
            in_line || state.cursor_position <= 1
        }
    } else {
        true
    }
}

/// The state after a key in normal mode, and the action that the key asks
/// of the client.
///
/// - `i`, `I`, `a`, `A`: to insert mode, with the cursor where it is, at the
///   start, one to the right, or at the end.
/// - `h`, `l`: the cursor one to the left or to the right, inside the line.
/// - `w`, `b`: with an operator waiting, the operator works from the cursor
///   to the next or the previous word and waits no longer; else the cursor
///   moves there, after `w` onto a character.
/// - `d`: after `d`, the line is emptied; else `Delete` waits from `now` on.
/// - `x`: the character under the cursor leaves the line.
/// - `j`, `k`, `:`: the client selects the next or the previous entry, or an
///   emoji.
/// - any other key: no operator waits and no keys are pending.
pub open spec fn vim_step(state: EditorView, c: char, elapsed_secs: u64, now: Instant) -> (
    EditorView,
    Option<AppAction>,
) {
    let ready = made_ready(state, elapsed_secs, now);
    let operator = waiting_operator(ready);
    let cursor = ready.cursor_position;
    let len = ready.input.len();
    if c == 'i' {
        (EditorView { mode: InputMode::Insert, ..ready }, None)
    } else if c == 'I' {
        (EditorView { cursor_position: 0, mode: InputMode::Insert, ..ready }, None)
    } else if c == 'a' {
        (
            EditorView {
                cursor_position: if cursor < len {
                    (cursor + 1) as usize
                } else {
                    cursor
                },
                mode: InputMode::Insert,
                ..ready
            },
            None,
        )
    } else if c == 'A' {
        (EditorView { cursor_position: len as usize, mode: InputMode::Insert, ..ready }, None)
    } else if c == 'j' {
        (ready, Some(AppAction::SelectNext))
    } else if c == 'k' {
        (ready, Some(AppAction::SelectPrevious))
    } else if c == 'h' {
        (
            EditorView {
                cursor_position: if cursor > 0 {
                    (cursor - 1) as usize
                } else {
                    cursor
                },
                ..ready
            },
            None,
        )
    } else if c == 'l' {
        (
            EditorView {
                cursor_position: if cursor + 1 < len {
                    (cursor + 1) as usize
                } else {
                    cursor
                },
                ..ready
            },
            None,
        )
    } else if c == 'w' {
        let range = motion_range(ready, VimMotion::WordForward);
        match operator {
            Some(op) => (with_operator(operator_applied(ready, op, range), None), None),
            None => (cursor_clamped(EditorView { cursor_position: range.1, ..ready }), None),
        }
    } else if c == 'b' {
        let range = motion_range(ready, VimMotion::WordBackward);
        match operator {
            Some(op) => (with_operator(operator_applied(ready, op, range), None), None),
            None => (EditorView { cursor_position: range.1, ..ready }, None),
        }
    } else if c == 'd' {
        if operator == Some(VimOperator::Delete) {
            (
                with_operator(
                    EditorView { input: Seq::empty(), cursor_position: 0, ..ready },
                    None,
                ),
                None,
            )
        } else {
            (
                EditorView {
                    vim_state: Some(
                        VimStateView {
                            operator: Some(VimOperator::Delete),
                            last_action_time: now,
                            ..ready.vim_state.unwrap()
                        },
                    ),
                    ..ready
                },
                None,
            )
        }
    } else if c == 'x' {
        if cursor < len {
            (cursor_clamped(EditorView { input: ready.input.remove(cursor as int), ..ready }), None)
        } else {
            (ready, None)
        }
    } else if c == ':' {
        (ready, Some(AppAction::SelectEmoji))
    } else {
        (vim_reset(ready), None)
    }
}

/// Puts the cursor on a character of the line: at position 0 in an empty
/// line, and on the last character if it stood behind it.
pub fn clamp_cursor(state: &mut EditorState)
    ensures
        final(state)@ == cursor_clamped(old(state)@),
{
    let len = state.input.len();
    if len == 0 {
        state.cursor_position = 0;
    } else if state.cursor_position >= len {
        state.cursor_position = len - 1;
    }
}

/// The range from the cursor to where a motion ends.
pub fn get_motion_range(state: &EditorState, motion: VimMotion) -> (range: (usize, usize))
    requires
        motion_defined(state@.input.len(), state.cursor_position, motion),
    ensures
        range.0 == state.cursor_position,
        range.1 == motion_target(blanks_of(state@.input), state.cursor_position, motion),
{
    let blank = blanks(&state.input);
    let start = state.cursor_position;
    (start, motion_end(&blank, start, motion))
}

/// Lets an operator work on the range between two positions, given in either
/// order.
pub fn execute_operator(state: &mut EditorState, operator: VimOperator, range: (usize, usize))
    requires
        operator_defined(old(state)@, operator, range),
    ensures
        final(state)@ == operator_applied(old(state)@, operator, range),
{
    let (start, end) = range;
    let (low, high) = if start < end {
        (start, end)
    } else {
        (end, start)
    };
    match operator {
        VimOperator::Delete => {
            if high > low {
                let mut rest = state.input.split_off(high);
                state.input.truncate(low);
                state.input.append(&mut rest);
                state.cursor_position = low;
                assert(state.input@ =~= old(state).input@.subrange(0, low as int) + old(
                    state,
                ).input@.subrange(high as int, old(state).input@.len() as int));
            }
        },
        VimOperator::Change => {},
        VimOperator::Yank => {},
    }
}

/// Makes `operator` wait, where normal mode remembers anything.
fn set_operator(state: &mut EditorState, operator: Option<VimOperator>)
    ensures
        final(state)@ == with_operator(old(state)@, operator),
{
    if let Some(vim_state) = &mut state.vim_state {
        vim_state.operator = operator;
    }
}

/// Forgets the waiting operator and the pending keys.
fn reset_vim(state: &mut EditorState)
    ensures
        final(state)@ == vim_reset(old(state)@),
{
    if let Some(vim_state) = &mut state.vim_state {
        vim_state.operator = None;
        vim_state.pending_keys = String::new();
    }
}

/// The operator that waits, if any.
fn current_operator(state: &EditorState) -> (operator: Option<VimOperator>)
    ensures
        operator == waiting_operator(state@),
{
    match &state.vim_state {
        Some(vim_state) => vim_state.operator,
        None => None,
    }
}

/// Whether a key can be handled in a state, `elapsed_secs` whole seconds
/// after the last action.
pub fn vim_key_is_defined(state: &EditorState, c: char, elapsed_secs: u64) -> (defined: bool)
    ensures
        defined == vim_key_defined(state@, c, elapsed_secs),
{
    let deletes = elapsed_secs < OPERATOR_TIMEOUT_SECS && match current_operator(state) {
        Some(VimOperator::Delete) => true,
        _ => false,
    };
    let in_line = state.cursor_position <= state.input.len();
    if c == 'l' {
        state.cursor_position < usize::MAX
    } else if c == 'w' {
        !deletes || in_line
    } else if c == 'b' {
        in_line || (!deletes && state.cursor_position <= 1)
    } else {
        true
    }
}

/// Handles a key in normal mode, `elapsed_secs` whole seconds after the last
/// action and at the moment `now`. Returns the action that the key asks of
/// the client.
pub fn apply_vim_key(
    state: &mut EditorState,
    c: char,
    elapsed_secs: u64,
    now: Instant,
) -> (action: Option<AppAction>)
    requires
        vim_key_defined(old(state)@, c, elapsed_secs),
    ensures
        (final(state)@, action) == vim_step(old(state)@, c, elapsed_secs, now),
{
    if current_operator(state).is_some() && elapsed_secs >= OPERATOR_TIMEOUT_SECS {
        reset_vim(state);
    }
    if state.vim_state.is_none() {
        let fresh = VimState { operator: None, pending_keys: String::new(), last_action_time: now };
        state.vim_state = Some(fresh);
    }
    assert(state@ == made_ready(old(state)@, elapsed_secs, now));
    let operator = current_operator(state);
    let mut action: Option<AppAction> = None;

    if c == 'i' {
        state.mode = InputMode::Insert;
    } else if c == 'I' {
        state.cursor_position = 0;
        state.mode = InputMode::Insert;
    } else if c == 'a' {
        if state.cursor_position < state.input.len() {
            state.cursor_position += 1;
        }
        state.mode = InputMode::Insert;
    } else if c == 'A' {
        state.cursor_position = state.input.len();
        state.mode = InputMode::Insert;
    } else if c == 'j' {
        action = Some(AppAction::SelectNext);
    } else if c == 'k' {
        action = Some(AppAction::SelectPrevious);
    } else if c == 'h' {
        if state.cursor_position > 0 {
            state.cursor_position -= 1;
        }
    } else if c == 'l' {
        if state.cursor_position + 1 < state.input.len() {
            state.cursor_position += 1;
        }
    } else if c == 'w' {
        let range = get_motion_range(state, VimMotion::WordForward);
        proof {
            if state.cursor_position <= state.input.len() {
                lemma_motion_target_bounds(
                    blanks_of(state@.input),
                    state.cursor_position,
                    VimMotion::WordForward,
                );
            }
        }
        match operator {
            Some(op) => {
                execute_operator(state, op, range);
                set_operator(state, None);
            },
            None => {
                state.cursor_position = range.1;
                clamp_cursor(state);
            },
        }
    } else if c == 'b' {
        let range = get_motion_range(state, VimMotion::WordBackward);
        proof {
            if state.cursor_position <= state.input.len() {
                lemma_motion_target_bounds(
                    blanks_of(state@.input),
                    state.cursor_position,
                    VimMotion::WordBackward,
                );
            }
        }
        match operator {
            Some(op) => {
                execute_operator(state, op, range);
                set_operator(state, None);
            },
            None => {
                state.cursor_position = range.1;
            },
        }
    } else if c == 'd' {
        if let Some(VimOperator::Delete) = operator {
            state.input.clear();
            state.cursor_position = 0;
            set_operator(state, None);
        } else {
            if let Some(vim_state) = &mut state.vim_state {
                vim_state.operator = Some(VimOperator::Delete);
                vim_state.last_action_time = now;
            }
        }
    } else if c == 'x' {
        let pos = state.cursor_position;
        if pos < state.input.len() {
            state.input.remove(pos);
            clamp_cursor(state);
        }
    } else if c == ':' {
        action = Some(AppAction::SelectEmoji);
    } else {
        reset_vim(state);
    }
    action
}

/// Handles a key in normal mode at the present moment. Returns the action
/// that the key asks of the client.
pub fn handle_vim_keys(state: &mut EditorState, c: char) -> (action: Option<AppAction>)
    requires
        forall|elapsed_secs: u64| vim_key_defined(old(state)@, c, elapsed_secs),
    ensures
        exists|elapsed_secs: u64, now: Instant|
            (final(state)@, action) == #[trigger] vim_step(old(state)@, c, elapsed_secs, now),
{
    let now = Instant::now();
    let elapsed_secs = match &state.vim_state {
        Some(vim_state) => now.duration_since(vim_state.last_action_time).as_secs(),
        None => 0,
    };
    apply_vim_key(state, c, elapsed_secs, now)
}

/// Whether the cursor stands on a character of the line or at its end.
pub open spec fn cursor_in_line(state: EditorView) -> bool {
    state.cursor_position <= state.input.len()
}

/// With the cursor in the line every key can be handled, whatever time has
/// passed.
pub proof fn lemma_cursor_in_line_admits_every_key(state: EditorView, c: char, elapsed_secs: u64)
    requires
        cursor_in_line(state),
        state.input.len() < usize::MAX,
    ensures
        vim_key_defined(state, c, elapsed_secs),
{
}

/// No key takes the cursor out of the line.
pub proof fn lemma_vim_step_keeps_cursor_in_line(
    state: EditorView,
    c: char,
    elapsed_secs: u64,
    now: Instant,
)
    requires
        cursor_in_line(state),
        state.input.len() <= usize::MAX,
    ensures
        cursor_in_line(vim_step(state, c, elapsed_secs, now).0),
{
    let ready = made_ready(state, elapsed_secs, now);
    let blank = blanks_of(ready.input);
    lemma_motion_target_bounds(blank, ready.cursor_position, VimMotion::WordForward);
    lemma_motion_target_bounds(blank, ready.cursor_position, VimMotion::WordBackward);
}

/// A key that asks the client for an action leaves the line, the cursor and
/// the mode as they are.
pub proof fn lemma_action_keys_do_not_edit(
    state: EditorView,
    c: char,
    elapsed_secs: u64,
    now: Instant,
)
    requires
        vim_step(state, c, elapsed_secs, now).1 is Some,
    ensures
        c == 'j' || c == 'k' || c == ':',
        vim_step(state, c, elapsed_secs, now).0.input == state.input,
        vim_step(state, c, elapsed_secs, now).0.cursor_position == state.cursor_position,
        vim_step(state, c, elapsed_secs, now).0.mode == state.mode,
{
}

} // verus!
