//! One function per command that the interface sends.
use vstd::prelude::*;

use crate::commands::{send_play_command, unavailable_message, CommandChannel, PlaybackCommand};

verus! {

/// Asks the playback side to play the song at `index`.
pub fn play_selected(channel: &mut CommandChannel, index: usize) -> (r: Result<(), String>)
    ensures
        final(channel).sent() == old(channel).sent().push(PlaybackCommand::Play(index)),
        r is Ok || (r matches Err(e) && e@ == unavailable_message()),
{
    send_play_command(channel, PlaybackCommand::Play(index))
}

/// Asks the playback side to pause or resume.
pub fn toggle_pause(channel: &mut CommandChannel) -> (r: Result<(), String>)
    ensures
        final(channel).sent() == old(channel).sent().push(PlaybackCommand::TogglePause),
        r is Ok || (r matches Err(e) && e@ == unavailable_message()),
{
    send_play_command(channel, PlaybackCommand::TogglePause)
}

/// Asks the playback side for the next song.
pub fn next(channel: &mut CommandChannel) -> (r: Result<(), String>)
    ensures
        final(channel).sent() == old(channel).sent().push(PlaybackCommand::Next),
        r is Ok || (r matches Err(e) && e@ == unavailable_message()),
{
    send_play_command(channel, PlaybackCommand::Next)
}

/// Asks the playback side for the previous song.
pub fn previous(channel: &mut CommandChannel) -> (r: Result<(), String>)
    ensures
        final(channel).sent() == old(channel).sent().push(PlaybackCommand::Previous),
        r is Ok || (r matches Err(e) && e@ == unavailable_message()),
{
    send_play_command(channel, PlaybackCommand::Previous)
}

/// Asks the playback side to stop.
pub fn stop(channel: &mut CommandChannel) -> (r: Result<(), String>)
    ensures
        final(channel).sent() == old(channel).sent().push(PlaybackCommand::Stop),
        r is Ok || (r matches Err(e) && e@ == unavailable_message()),
{
    send_play_command(channel, PlaybackCommand::Stop)
}

/// Asks the playback side to end.
pub fn shutdown(channel: &mut CommandChannel) -> (r: Result<(), String>)
    ensures
        final(channel).sent() == old(channel).sent().push(PlaybackCommand::Shutdown),
        r is Ok || (r matches Err(e) && e@ == unavailable_message()),
{
    send_play_command(channel, PlaybackCommand::Shutdown)
}

} // verus!
