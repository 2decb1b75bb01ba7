//! The decisions of the playback side: what to do with each command that
//! arrives, and what to report once the audio output has done it.
//! Receiving, playing and reporting are left to the program around the
//! library.
use vstd::prelude::*;

use crate::commands::PlaybackCommand;
use crate::events::PlaybackEvent;
use crate::models::library::{next_position, previous_position, Library};

verus! {

/// What the playback side does next.
#[derive(Debug)]
pub enum EngineAction {
    /// Play the file at `path`, the song at `index`; `switched` when this
    /// moves to the next or previous song rather than a song asked for.
    PlayFile { index: usize, path: String, switched: bool },
    /// Pause the output.
    Pause,
    /// Resume the output.
    Resume,
    /// Stop the output.
    Stop,
    /// Leave the loop: shutdown was asked for, or the interface is gone.
    Exit,
    /// Nothing to do.
    Ignore,
}

/// The state that the playback side keeps: its copy of the library and the
/// song it last started.
#[derive(Debug)]
pub struct EngineCore {
    pub library: Library,
    pub current_index: Option<usize>,
}

/// Whether `action` plays the song at `index` of `songs`.
pub open spec fn plays(action: EngineAction, library: Library, index: usize, switched: bool) -> bool {
    action matches EngineAction::PlayFile { index: i, path, switched: s } && i == index && s
        == switched && index < library@.len() && path@ == library@[index as int].path
}

/// The song to move to from the current one with `step` (the next or the
/// previous position in circular order), when a song of the library is
/// current.
pub open spec fn step_target(
    len: nat,
    current: Option<usize>,
    step: spec_fn(nat, usize) -> Option<usize>,
) -> Option<usize> {
    match current {
        Some(c) => if c < len {
            step(len, c)
        } else {
            None
        },
        None => None,
    }
}

impl EngineCore {
    /// A playback side that has played nothing yet.
    pub fn new(library: Library) -> (r: EngineCore)
        ensures
            r.library == library,
            r.current_index is None,
    {
        EngineCore { library, current_index: None }
    }

    /// What to do with what arrived on the command channel (`None` when the
    /// channel is closed), given whether the output is paused: play a song
    /// that exists; pause, resume or stop the output; pause or resume by
    /// what the output is doing for a toggle; play the song after or before
    /// the current one, in circular order, for next and previous; leave on
    /// shutdown or a closed channel; and do nothing when there is no such
    /// song.
    pub fn action_for(&self, received: Option<PlaybackCommand>, paused: bool) -> (r: EngineAction)
        ensures
            match received {
                None | Some(PlaybackCommand::Shutdown) => r is Exit,
                Some(PlaybackCommand::Play(index)) => if index < self.library@.len() {
                    plays(r, self.library, index, false)
                } else {
                    r is Ignore
                },
                Some(PlaybackCommand::Pause) => r is Pause,
                Some(PlaybackCommand::Resume) => r is Resume,
                Some(PlaybackCommand::Stop) => r is Stop,
                Some(PlaybackCommand::TogglePause) => if paused {
                    r is Resume
                } else {
                    r is Pause
                },
                Some(PlaybackCommand::Next) => match step_target(
                    self.library@.len(),
                    self.current_index,
                    |len: nat, c: usize| next_position(len, c),
                ) {
                    Some(j) => plays(r, self.library, j, true),
                    None => r is Ignore,
                },
                Some(PlaybackCommand::Previous) => match step_target(
                    self.library@.len(),
                    self.current_index,
                    |len: nat, c: usize| previous_position(len, c),
                ) {
                    Some(j) => plays(r, self.library, j, true),
                    None => r is Ignore,
                },
            },
    {
        match received {
            Some(PlaybackCommand::Play(index)) => match self.library.get(index) {
                Some(song) => EngineAction::PlayFile { index, path: song.path.clone(), switched: false },
                None => EngineAction::Ignore,
            },
            Some(PlaybackCommand::Pause) => EngineAction::Pause,
            Some(PlaybackCommand::Resume) => EngineAction::Resume,
            Some(PlaybackCommand::Stop) => EngineAction::Stop,
            Some(PlaybackCommand::TogglePause) => if paused {
                EngineAction::Resume
            } else {
                EngineAction::Pause
            },
            Some(PlaybackCommand::Next) => match self.current_index {
                Some(c) => if c < self.library.len() {
                    match self.library.next_index(c) {
                        Some(j) => self.play_switched(j),
                        None => EngineAction::Ignore,
                    }
                } else {
                    EngineAction::Ignore
                },
                None => EngineAction::Ignore,
            },
            Some(PlaybackCommand::Previous) => match self.current_index {
                Some(c) => if c < self.library.len() {
                    match self.library.previous_index(c) {
                        Some(j) => self.play_switched(j),
                        None => EngineAction::Ignore,
                    }
                } else {
                    EngineAction::Ignore
                },
                None => EngineAction::Ignore,
            },
            Some(PlaybackCommand::Shutdown) | None => EngineAction::Exit,
        }
    }

    /// Play the song at `j`, moved to from the current one.
    fn play_switched(&self, j: usize) -> (r: EngineAction)
        requires
            j < self.library@.len(),
        ensures
            plays(r, self.library, j, true),
    {
        EngineAction::PlayFile { index: j, path: self.library.songs[j].path.clone(), switched: true }
    }

    /// What to report after the song at `index` was handed to the output:
    /// when it started, it becomes the current song and its start is
    /// reported (as a switch when it was moved to with next or previous);
    /// when it could not be opened or decoded, the current song stays and
    /// the failure is reported with its message.
    pub fn play_outcome(&mut self, index: usize, switched: bool, result: Result<(), String>) -> (r: PlaybackEvent)
        ensures
            result is Ok ==> final(self).current_index == Some(index),
            result is Ok && !switched ==> (r matches PlaybackEvent::Started(i) && i == index),
            result is Ok && switched ==> (r matches PlaybackEvent::SwitchedTo(i) && i == index),
            result is Err ==> final(self).current_index == old(self).current_index,
            result matches Err(m) ==> (r matches PlaybackEvent::Error(e) && e == m),
            final(self).library == old(self).library,
    {
        match result {
            Ok(()) => {
                self.current_index = Some(index);
                if switched {
                    PlaybackEvent::SwitchedTo(index)
                } else {
                    PlaybackEvent::Started(index)
                }
            },
            Err(message) => PlaybackEvent::Error(message),
        }
    }

    /// What to report after the output paused, resumed or stopped; nothing
    /// for the other actions.
    pub fn control_event(&self, action: &EngineAction) -> (r: Option<PlaybackEvent>)
        ensures
            match action {
                EngineAction::Pause => r matches Some(PlaybackEvent::Paused),
                EngineAction::Resume => r matches Some(PlaybackEvent::Resumed),
                EngineAction::Stop => r matches Some(PlaybackEvent::Stopped),
                _ => r is None,
            },
    {
        match action {
            EngineAction::Pause => Some(PlaybackEvent::Paused),
            EngineAction::Resume => Some(PlaybackEvent::Resumed),
            EngineAction::Stop => Some(PlaybackEvent::Stopped),
            _ => None,
        }
    }
}

} // verus!
