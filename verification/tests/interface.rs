use std::sync::mpsc;

use music_library_cli::commands::{send_outcome, send_play_command, CommandChannel, PlaybackCommand};
use music_library_cli::events::PlaybackEvent;
use music_library_cli::handlers::event_handler::apply_playback_event;
use music_library_cli::models::library::Library;
use music_library_cli::models::song::Song;
use music_library_cli::state::{AppState, PlaybackState};
use music_library_cli::ui_terminal::input::UiAction;
use music_library_cli::ui_terminal::render::{render_lines, truncate, visible_start, LineStyle};
use music_library_cli::ui_terminal::terminal::handle_action;

fn library(n: usize) -> Library {
    Library {
        songs: (0..n)
            .map(|i| Song { id: i + 1, title: format!("Song {i}"), path: format!("/m/{i}.mp3") })
            .collect(),
    }
}

#[test]
fn new_state_greets() {
    let state = AppState::new(library(2));
    assert_eq!(state.current_index, None);
    assert_eq!(state.selected_index, 0);
    assert_eq!(state.playback_state, PlaybackState::Stopped);
    assert_eq!(state.status_message, "欢迎使用 Rust 音乐播放器");
    assert_eq!(state.current_song_title(), "未在播放");
}

#[test]
fn events_update_the_state() {
    let mut state = AppState::new(library(3));
    apply_playback_event(&mut state, PlaybackEvent::Started(1));
    assert_eq!(state.current_index, Some(1));
    assert_eq!(state.playback_state, PlaybackState::Playing);
    assert_eq!(state.status_message, "Playing: Song 1");
    apply_playback_event(&mut state, PlaybackEvent::Paused);
    assert_eq!(state.playback_state, PlaybackState::Paused);
    assert_eq!(state.status_message, "Paused");
    apply_playback_event(&mut state, PlaybackEvent::Resumed);
    assert_eq!(state.playback_state, PlaybackState::Playing);
    assert_eq!(state.status_message, "Playing: Song 1");
    apply_playback_event(&mut state, PlaybackEvent::Finished(1));
    assert_eq!(state.status_message, "Finished song index 2");
    assert_eq!(state.playback_state, PlaybackState::Playing);
    apply_playback_event(&mut state, PlaybackEvent::SwitchedTo(2));
    assert_eq!(state.current_index, Some(2));
    assert_eq!(state.status_message, "Auto switched: Song 2");
    apply_playback_event(&mut state, PlaybackEvent::Stopped);
    assert_eq!(state.playback_state, PlaybackState::Stopped);
    assert_eq!(state.status_message, "Stopped");
    apply_playback_event(&mut state, PlaybackEvent::Error("no such file".to_string()));
    assert_eq!(state.status_message, "Playback error: no such file");
    apply_playback_event(&mut state, PlaybackEvent::Started(9));
    assert_eq!(state.current_index, None);
    assert_eq!(state.status_message, "Playing: 未在播放");
}

#[test]
fn set_current_index_checks_the_index() {
    let mut state = AppState::new(library(2));
    state.set_current_index(1);
    assert_eq!(state.current_index, Some(1));
    state.set_current_index(2);
    assert_eq!(state.current_index, None);
    state.set_playback_state(PlaybackState::Paused);
    assert_eq!(state.playback_state, PlaybackState::Paused);
    state.set_status_message("hi".to_string());
    assert_eq!(state.status_message, "hi");
    assert_eq!(PlaybackState::Paused.label(), "Paused");
}

#[test]
fn actions_move_the_cursor_and_send_commands() {
    let (tx, rx) = mpsc::channel();
    let mut channel = CommandChannel::new(tx);
    let mut state = AppState::new(library(2));
    assert_eq!(handle_action(&mut state, &mut channel, UiAction::MoveUp), Ok(false));
    assert_eq!(state.selected_index, 0);
    assert_eq!(handle_action(&mut state, &mut channel, UiAction::MoveDown), Ok(false));
    assert_eq!(state.selected_index, 1);
    assert_eq!(handle_action(&mut state, &mut channel, UiAction::MoveDown), Ok(false));
    assert_eq!(state.selected_index, 1);
    assert_eq!(handle_action(&mut state, &mut channel, UiAction::PlaySelected), Ok(false));
    assert_eq!(handle_action(&mut state, &mut channel, UiAction::TogglePause), Ok(false));
    assert_eq!(handle_action(&mut state, &mut channel, UiAction::Next), Ok(false));
    assert_eq!(handle_action(&mut state, &mut channel, UiAction::Previous), Ok(false));
    assert_eq!(handle_action(&mut state, &mut channel, UiAction::Stop), Ok(false));
    assert_eq!(handle_action(&mut state, &mut channel, UiAction::NoAction), Ok(false));
    assert_eq!(handle_action(&mut state, &mut channel, UiAction::Quit), Ok(true));
    let sent: Vec<PlaybackCommand> = rx.try_iter().collect();
    assert_eq!(
        sent,
        vec![
            PlaybackCommand::Play(1),
            PlaybackCommand::TogglePause,
            PlaybackCommand::Next,
            PlaybackCommand::Previous,
            PlaybackCommand::Stop,
        ]
    );
    drop(rx);
    assert_eq!(
        handle_action(&mut state, &mut channel, UiAction::Stop),
        Err("playback thread is not available".to_string())
    );
}

#[test]
fn sending_reports_a_missing_receiver() {
    let (tx, rx) = mpsc::channel();
    let mut channel = CommandChannel::new(tx);
    assert_eq!(send_play_command(&mut channel, PlaybackCommand::Pause), Ok(()));
    assert_eq!(rx.recv().unwrap(), PlaybackCommand::Pause);
    drop(rx);
    assert_eq!(
        send_play_command(&mut channel, PlaybackCommand::Pause),
        Err("playback thread is not available".to_string())
    );
    assert_eq!(send_outcome(Ok(())), Ok(()));
    assert_eq!(
        send_outcome(Err(mpsc::SendError(PlaybackCommand::Stop))),
        Err("playback thread is not available".to_string())
    );
}

#[test]
fn window_and_truncation() {
    assert_eq!(visible_start(5, 10), 0);
    assert_eq!(visible_start(0, 30), 0);
    assert_eq!(visible_start(15, 30), 6);
    assert_eq!(visible_start(29, 30), 12);
    assert_eq!(truncate("abcdef", 3), "abc...");
    assert_eq!(truncate("abc", 3), "abc");
    assert_eq!(truncate("ééé", 2), "éé...");
}

#[test]
fn screen_of_an_empty_library() {
    let state = AppState::new(Library::default());
    let lines = render_lines(&state);
    let texts: Vec<&str> = lines.iter().map(|l| l.text.as_str()).collect();
    assert_eq!(texts[0], "Rust Music Player - TUI");
    assert_eq!(lines[0].style, LineStyle::Heading);
    assert_eq!(texts[2], "-".repeat(80));
    assert_eq!(texts[3], "State: Stopped   Now: 未在播放");
    assert_eq!(texts[4], "Status: 欢迎使用 Rust 音乐播放器");
    assert_eq!(&texts[6..], &["Library is empty.", "Run: cargo run -- scan <your-music-folder>"]);
    assert_eq!(lines[6].style, LineStyle::Notice);
}

#[test]
fn screen_lists_a_window_of_songs() {
    let mut state = AppState::new(library(30));
    state.selected_index = 15;
    state.current_index = Some(7);
    let lines = render_lines(&state);
    assert_eq!(lines.len(), 6 + 18 + 2);
    let first = &lines[6];
    assert_eq!(
        first.text,
        format!("{} {:>3}. {:<46} {}", "  *", 7, "Song 6", "/m/6.mp3").replacen("  *", "   ", 1)
    );
    assert_eq!(lines[7].text, format!("{} {:>3}. {:<46} {}", "  *", 8, "Song 7", "/m/7.mp3"));
    assert_eq!(lines[7].style, LineStyle::Current);
    assert_eq!(lines[6 + 9].text, format!("{} {:>3}. {:<46} {}", ">  ", 16, "Song 15", "/m/15.mp3"));
    assert_eq!(lines[6 + 9].style, LineStyle::Selected);
    assert_eq!(lines[25].text, "Showing 7-24 of 30 songs");
}

#[test]
fn long_titles_are_cut() {
    let long = "x".repeat(50);
    let lib = Library { songs: vec![Song { id: 1, title: long.clone(), path: "p".to_string() }] };
    let mut state = AppState::new(lib);
    state.current_index = Some(0);
    let lines = render_lines(&state);
    assert_eq!(lines[6].text, format!("> *   1. {}... p", "x".repeat(46)));
    assert_eq!(lines[8].text, "Showing 1-1 of 1 songs");
}
