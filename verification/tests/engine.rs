use music_library_cli::commands::{CommandChannel, PlaybackCommand};
use music_library_cli::handlers::playback_handler;
use music_library_cli::events::PlaybackEvent;
use music_library_cli::models::library::Library;
use music_library_cli::models::song::Song;
use music_library_cli::playback::engine::{EngineAction, EngineCore};
use music_library_cli::player::playback::{PlayStatus, PlaybackState};

fn song(i: usize) -> Song {
    Song { id: i + 1, title: format!("s{i}"), path: format!("/m/{i}.mp3") }
}

fn played(action: EngineAction) -> (usize, String, bool) {
    match action {
        EngineAction::PlayFile { index, path, switched } => (index, path, switched),
        other => panic!("unexpected {other:?}"),
    }
}

#[test]
fn engine_decides_on_commands() {
    let lib = Library { songs: vec![song(0)] };
    let mut core = EngineCore::new(lib);
    assert_eq!(
        played(core.action_for(Some(PlaybackCommand::Play(0)), false)),
        (0, "/m/0.mp3".to_string(), false)
    );
    assert!(matches!(core.action_for(Some(PlaybackCommand::Play(1)), false), EngineAction::Ignore));
    assert!(matches!(core.action_for(Some(PlaybackCommand::Pause), true), EngineAction::Pause));
    assert!(matches!(core.action_for(Some(PlaybackCommand::Resume), false), EngineAction::Resume));
    assert!(matches!(core.action_for(Some(PlaybackCommand::Stop), false), EngineAction::Stop));
    assert!(matches!(core.action_for(Some(PlaybackCommand::Next), false), EngineAction::Ignore));
    assert!(matches!(core.action_for(Some(PlaybackCommand::Shutdown), false), EngineAction::Exit));
    assert!(matches!(core.action_for(None, false), EngineAction::Exit));
    match core.play_outcome(0, false, Err("failed to open file".to_string())) {
        PlaybackEvent::Error(message) => assert_eq!(message, "failed to open file"),
        other => panic!("unexpected {other:?}"),
    }
    assert_eq!(core.current_index, None);
    assert!(matches!(core.play_outcome(0, false, Ok(())), PlaybackEvent::Started(0)));
    assert_eq!(core.current_index, Some(0));
}

#[test]
fn toggle_follows_the_output() {
    let core = EngineCore::new(Library { songs: vec![song(0)] });
    assert!(matches!(core.action_for(Some(PlaybackCommand::TogglePause), false), EngineAction::Pause));
    assert!(matches!(core.action_for(Some(PlaybackCommand::TogglePause), true), EngineAction::Resume));
    assert!(matches!(core.control_event(&EngineAction::Pause), Some(PlaybackEvent::Paused)));
    assert!(matches!(core.control_event(&EngineAction::Resume), Some(PlaybackEvent::Resumed)));
    assert!(matches!(core.control_event(&EngineAction::Stop), Some(PlaybackEvent::Stopped)));
    assert!(core.control_event(&EngineAction::Ignore).is_none());
    assert!(core.control_event(&EngineAction::Exit).is_none());
}

#[test]
fn next_and_previous_move_around_the_library() {
    let mut core = EngineCore::new(Library { songs: vec![song(0), song(1), song(2)] });
    core.current_index = Some(2);
    assert_eq!(
        played(core.action_for(Some(PlaybackCommand::Next), false)),
        (0, "/m/0.mp3".to_string(), true)
    );
    assert_eq!(
        played(core.action_for(Some(PlaybackCommand::Previous), false)),
        (1, "/m/1.mp3".to_string(), true)
    );
    assert!(matches!(core.play_outcome(0, true, Ok(())), PlaybackEvent::SwitchedTo(0)));
    assert_eq!(core.current_index, Some(0));
    assert_eq!(
        played(core.action_for(Some(PlaybackCommand::Previous), false)),
        (2, "/m/2.mp3".to_string(), true)
    );
    core.current_index = Some(7);
    assert!(matches!(core.action_for(Some(PlaybackCommand::Next), false), EngineAction::Ignore));
}

#[test]
fn handlers_send_their_own_command() {
    let (tx, rx) = std::sync::mpsc::channel();
    let mut channel = CommandChannel::new(tx);
    assert_eq!(playback_handler::play_selected(&mut channel, 4), Ok(()));
    assert_eq!(playback_handler::toggle_pause(&mut channel), Ok(()));
    assert_eq!(playback_handler::next(&mut channel), Ok(()));
    assert_eq!(playback_handler::previous(&mut channel), Ok(()));
    assert_eq!(playback_handler::stop(&mut channel), Ok(()));
    assert_eq!(playback_handler::shutdown(&mut channel), Ok(()));
    let got: Vec<PlaybackCommand> = rx.try_iter().collect();
    assert_eq!(
        got,
        vec![
            PlaybackCommand::Play(4),
            PlaybackCommand::TogglePause,
            PlaybackCommand::Next,
            PlaybackCommand::Previous,
            PlaybackCommand::Stop,
            PlaybackCommand::Shutdown,
        ]
    );
}

#[test]
fn player_state_starts_stopped() {
    let state = PlaybackState::default();
    assert_eq!(state.current_song_idx, 0);
    assert_eq!(state.status, PlayStatus::Stopped);
    assert_eq!(PlayStatus::default(), PlayStatus::Stopped);
}
