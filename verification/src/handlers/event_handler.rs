//! How the interface state follows the events of the playback side.
use vstd::prelude::*;

use crate::events::PlaybackEvent;
use crate::models::song::SongView;
use crate::state::app_state::{checked_index, current_title, AppState};
use crate::state::playback_state::PlaybackState;
use crate::text::{decimal, decimal_string};

verus! {

/// The current index after the event.
pub open spec fn current_after(len: nat, current: Option<usize>, event: PlaybackEvent) -> Option<usize> {
    match event {
        PlaybackEvent::Started(i) => checked_index(len, i),
        PlaybackEvent::SwitchedTo(i) => checked_index(len, i),
        _ => current,
    }
}

/// The playback state after the event: playing after a start, a resume or a
/// switch; paused after a pause; stopped after a stop or an error; unchanged
/// when a song finishes.
pub open spec fn playback_after(state: PlaybackState, event: PlaybackEvent) -> PlaybackState {
    match event {
        PlaybackEvent::Started(_) => PlaybackState::Playing,
        PlaybackEvent::Paused => PlaybackState::Paused,
        PlaybackEvent::Resumed => PlaybackState::Playing,
        PlaybackEvent::Stopped => PlaybackState::Stopped,
        PlaybackEvent::Finished(_) => state,
        PlaybackEvent::SwitchedTo(_) => PlaybackState::Playing,
        PlaybackEvent::Error(_) => PlaybackState::Stopped,
    }
}

/// The status line after the event, given the songs and the current index
/// after it.
pub open spec fn status_after(songs: Seq<SongView>, current: Option<usize>, event: PlaybackEvent) -> Seq<char> {
    match event {
        PlaybackEvent::Started(_) => "Playing: "@ + current_title(songs, current),
        PlaybackEvent::Paused => "Paused"@,
        PlaybackEvent::Resumed => "Playing: "@ + current_title(songs, current),
        PlaybackEvent::Stopped => "Stopped"@,
        PlaybackEvent::Finished(i) => "Finished song index "@ + decimal((i + 1) as nat),
        PlaybackEvent::SwitchedTo(_) => "Auto switched: "@ + current_title(songs, current),
        PlaybackEvent::Error(message) => "Playback error: "@ + message@,
    }
}

/// Brings the interface state up to date with an event of the playback side:
/// the current song, the playback state and the status line change as the
/// event says; the library and the cursor stay as they are.
pub fn apply_playback_event(state: &mut AppState, event: PlaybackEvent)
    requires
        event matches PlaybackEvent::Finished(i) ==> i < usize::MAX,
    ensures
        final(state).current_index == current_after(
            old(state).library@.len(),
            old(state).current_index,
            event,
        ),
        final(state).playback_state == playback_after(old(state).playback_state, event),
        event is Error ==> final(state).playback_state == PlaybackState::Stopped,
        event is Stopped ==> final(state).playback_state == PlaybackState::Stopped,
        event is Paused ==> final(state).playback_state == PlaybackState::Paused,
        (event is Started || event is Resumed || event is SwitchedTo) ==> final(state).playback_state
            == PlaybackState::Playing,
        event is Finished ==> final(state).playback_state == old(state).playback_state,
        final(state).status_message@ == status_after(
            old(state).library@,
            final(state).current_index,
            event,
        ),
        final(state).library == old(state).library,
        final(state).selected_index == old(state).selected_index,
        old(state).wf() ==> final(state).wf(),
{
    match event {
        PlaybackEvent::Started(index) => {
            state.set_current_index(index);
            state.playback_state = PlaybackState::Playing;
            let title = state.current_song_title();
            state.set_status_message(String::from_str("Playing: ").concat(title.as_str()));
        },
        PlaybackEvent::Paused => {
            state.playback_state = PlaybackState::Paused;
            state.set_status_message(String::from_str("Paused"));
        },
        PlaybackEvent::Resumed => {
            state.playback_state = PlaybackState::Playing;
            let title = state.current_song_title();
            state.set_status_message(String::from_str("Playing: ").concat(title.as_str()));
        },
        PlaybackEvent::Stopped => {
            state.playback_state = PlaybackState::Stopped;
            state.set_status_message(String::from_str("Stopped"));
        },
        PlaybackEvent::Finished(index) => {
            let number = decimal_string(index + 1);
            state.set_status_message(String::from_str("Finished song index ").concat(number.as_str()));
        },
        PlaybackEvent::SwitchedTo(index) => {
            state.set_current_index(index);
            state.playback_state = PlaybackState::Playing;
            let title = state.current_song_title();
            state.set_status_message(String::from_str("Auto switched: ").concat(title.as_str()));
        },
        PlaybackEvent::Error(message) => {
            state.playback_state = PlaybackState::Stopped;
            state.set_status_message(String::from_str("Playback error: ").concat(message.as_str()));
        },
    }
}

/// What each event does to the playback state, whatever it was: a failure
/// or a stop stops playback, a pause pauses it, a start, a resume or a
/// switch makes music play, and the end of a song leaves the state alone.
pub proof fn lemma_playback_state_follows_events(state: PlaybackState, index: usize, message: String)
    ensures
        playback_after(state, PlaybackEvent::Error(message)) == PlaybackState::Stopped,
        playback_after(state, PlaybackEvent::Stopped) == PlaybackState::Stopped,
        playback_after(state, PlaybackEvent::Paused) == PlaybackState::Paused,
        playback_after(state, PlaybackEvent::Started(index)) == PlaybackState::Playing,
        playback_after(state, PlaybackEvent::Resumed) == PlaybackState::Playing,
        playback_after(state, PlaybackEvent::SwitchedTo(index)) == PlaybackState::Playing,
        playback_after(state, PlaybackEvent::Finished(index)) == state,
{
}

} // verus!
