use music_library_cli::ui_terminal::input::{key_to_action, KeyCode, KeyEvent, KeyEventKind, UiAction};

fn key(code: KeyCode) -> KeyEvent {
    KeyEvent { code, kind: KeyEventKind::Press }
}

#[test]
fn maps_enter_to_play_selected() {
    assert_eq!(key_to_action(key(KeyCode::Enter)), UiAction::PlaySelected);
}

#[test]
fn maps_space_to_toggle_pause() {
    assert_eq!(key_to_action(key(KeyCode::Char(' '))), UiAction::TogglePause);
}

#[test]
fn maps_every_key_of_the_help_line() {
    assert_eq!(key_to_action(key(KeyCode::Up)), UiAction::MoveUp);
    assert_eq!(key_to_action(key(KeyCode::Down)), UiAction::MoveDown);
    assert_eq!(key_to_action(key(KeyCode::Char('n'))), UiAction::Next);
    assert_eq!(key_to_action(key(KeyCode::Right)), UiAction::Next);
    assert_eq!(key_to_action(key(KeyCode::Char('p'))), UiAction::Previous);
    assert_eq!(key_to_action(key(KeyCode::Left)), UiAction::Previous);
    assert_eq!(key_to_action(key(KeyCode::Char('s'))), UiAction::Stop);
    assert_eq!(key_to_action(key(KeyCode::Char('q'))), UiAction::Quit);
    assert_eq!(key_to_action(key(KeyCode::Esc)), UiAction::Quit);
    assert_eq!(key_to_action(key(KeyCode::Char('Q'))), UiAction::NoAction);
    assert_eq!(key_to_action(key(KeyCode::Other)), UiAction::NoAction);
}

#[test]
fn only_key_presses_act() {
    let release = KeyEvent { code: KeyCode::Enter, kind: KeyEventKind::Release };
    let repeat = KeyEvent { code: KeyCode::Char('q'), kind: KeyEventKind::Repeat };
    assert_eq!(key_to_action(release), UiAction::NoAction);
    assert_eq!(key_to_action(repeat), UiAction::NoAction);
}
