//! Events that the playback side reports to the interface.
use vstd::prelude::*;

verus! {

/// What the playback side reports back to the interface.
#[derive(Debug, Clone)]
pub enum PlaybackEvent {
    /// The song at this index started playing.
    Started(usize),
    /// Playback was paused.
    Paused,
    /// Playback went on after a pause.
    Resumed,
    /// Playback was stopped.
    Stopped,
    /// The song at this index played to its end.
    Finished(usize),
    /// Playback moved, by itself or on request, to the song at this index.
    SwitchedTo(usize),
    /// Playback failed, for instance because a file was missing or could not
    /// be decoded.
    Error(String),
}

} // verus!
