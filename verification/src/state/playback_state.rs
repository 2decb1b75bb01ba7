//! Whether the interface shows music as playing, paused or stopped.
use vstd::prelude::*;

verus! {

/// The playback state that the interface shows.
#[derive(Debug, Clone, Copy, PartialEq, Eq, Structural)]
pub enum PlaybackState {
    Stopped,
    Playing,
    Paused,
}

/// The word that names the state on screen.
pub open spec fn state_label(state: PlaybackState) -> Seq<char> {
    match state {
        PlaybackState::Stopped => "Stopped"@,
        PlaybackState::Playing => "Playing"@,
        PlaybackState::Paused => "Paused"@,
    }
}

impl PlaybackState {
    /// The word that names the state on screen.
    pub fn label(&self) -> (r: &'static str)
        ensures
            r@ == state_label(*self),
    {
        match self {
            PlaybackState::Stopped => "Stopped",
            PlaybackState::Playing => "Playing",
            PlaybackState::Paused => "Paused",
        }
    }
}

} // verus!
