//! What a key press asks the interface to do.
use vstd::prelude::*;

verus! {

/// What the user asked for with a key.
#[derive(Debug, Clone, Copy, PartialEq, Eq, Structural)]
pub enum UiAction {
    MoveUp,
    MoveDown,
    PlaySelected,
    TogglePause,
    Next,
    Previous,
    Stop,
    Quit,
    NoAction,
}

/// The key that an event is about; keys that the interface does not use are
/// all `Other`.
#[derive(Debug, Clone, Copy, PartialEq, Eq, Structural)]
pub enum KeyCode {
    Up,
    Down,
    Left,
    Right,
    Enter,
    Esc,
    Char(char),
    Other,
}

/// Whether the key went down, repeats, or went up.
#[derive(Debug, Clone, Copy, PartialEq, Eq, Structural)]
pub enum KeyEventKind {
    Press,
    Repeat,
    Release,
}

/// A key event, as far as the interface reads it.
#[derive(Debug, Clone, Copy, PartialEq, Eq, Structural)]
pub struct KeyEvent {
    pub code: KeyCode,
    pub kind: KeyEventKind,
}

/// The action that a key event asks for: only presses count; arrows move
/// the cursor or change song, Enter plays, Space pauses, `n`/`p` change song,
/// `s` stops, `q` and Escape quit.
pub open spec fn action_for_key(key: KeyEvent) -> UiAction {
    if key.kind != KeyEventKind::Press {
        UiAction::NoAction
    } else {
        match key.code {
            KeyCode::Up => UiAction::MoveUp,
            KeyCode::Down => UiAction::MoveDown,
            KeyCode::Enter => UiAction::PlaySelected,
            KeyCode::Char(' ') => UiAction::TogglePause,
            KeyCode::Char('n') => UiAction::Next,
            KeyCode::Right => UiAction::Next,
            KeyCode::Char('p') => UiAction::Previous,
            KeyCode::Left => UiAction::Previous,
            KeyCode::Char('s') => UiAction::Stop,
            KeyCode::Char('q') => UiAction::Quit,
            KeyCode::Esc => UiAction::Quit,
            _ => UiAction::NoAction,
        }
    }
}

/// The action that a key event asks for.
pub fn key_to_action(key: KeyEvent) -> (r: UiAction)
    ensures
        r == action_for_key(key),
{
    if key.kind != KeyEventKind::Press {
        return UiAction::NoAction;
    }
    match key.code {
        KeyCode::Up => UiAction::MoveUp,
        KeyCode::Down => UiAction::MoveDown,
        KeyCode::Enter => UiAction::PlaySelected,
        KeyCode::Char(' ') => UiAction::TogglePause,
        KeyCode::Char('n') | KeyCode::Right => UiAction::Next,
        KeyCode::Char('p') | KeyCode::Left => UiAction::Previous,
        KeyCode::Char('s') => UiAction::Stop,
        KeyCode::Char('q') | KeyCode::Esc => UiAction::Quit,
        _ => UiAction::NoAction,
    }
}

/// Only a key going down acts: repeats and releases ask for nothing.
pub proof fn lemma_only_presses_act(key: KeyEvent)
    requires
        key.kind != KeyEventKind::Press,
    ensures
        action_for_key(key) == UiAction::NoAction,
{
}

} // verus!
