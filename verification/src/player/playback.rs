//! The message and state types of the window-based player.
use vstd::prelude::*;

verus! {

/// A message from the playing thread to the main thread.
#[derive(Debug)]
pub enum PlayerEvent {
    Finished,
    Error(String),
}

/// Whether music plays.
#[derive(Debug, Clone, Copy, PartialEq, Eq, Structural)]
pub enum PlayStatus {
    Stopped,
    Playing,
    Paused,
}

impl Default for PlayStatus {
    /// Stopped.
    fn default() -> (r: PlayStatus)
        ensures
            r == PlayStatus::Stopped,
    {
        PlayStatus::Stopped
    }
}

/// The position in the song list and the play status.
#[derive(Debug)]
pub struct PlaybackState {
    pub current_song_idx: usize,
    pub status: PlayStatus,
}

impl Default for PlaybackState {
    /// The first song, stopped.
    fn default() -> (r: PlaybackState)
        ensures
            r.current_song_idx == 0,
            r.status == PlayStatus::Stopped,
    {
        PlaybackState { current_song_idx: 0, status: PlayStatus::default() }
    }
}

/// A command from the main thread to the playing thread.
#[derive(Debug)]
pub enum PlaybackCommand {
    Play(usize),
    Pause,
    Resume,
    Next,
    Prev,
    Stop,
}

} // verus!
