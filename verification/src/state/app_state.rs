//! The state of the running interface.
use vstd::prelude::*;

use crate::models::library::Library;
use crate::models::song::SongView;
use crate::state::playback_state::PlaybackState;

verus! {

/// What the title line shows when no valid song is current.
pub open spec fn idle_title() -> Seq<char> {
    "未在播放"@
}

/// The greeting shown when the interface starts.
pub open spec fn welcome_message() -> Seq<char> {
    "欢迎使用 Rust 音乐播放器"@
}

/// The title of the current song, or the idle title when there is no
/// current song or the current index is outside the library.
pub open spec fn current_title(songs: Seq<SongView>, current: Option<usize>) -> Seq<char> {
    match current {
        Some(i) => if i < songs.len() {
            songs[i as int].title
        } else {
            idle_title()
        },
        None => idle_title(),
    }
}

/// The current index after asking for `index`: the index itself when it
/// names a song, none otherwise.
pub open spec fn checked_index(len: nat, index: usize) -> Option<usize> {
    if index < len {
        Some(index)
    } else {
        None
    }
}

/// The state of the interface: the library, the song being played, the song
/// under the cursor, the playback state and the status line.
#[derive(Debug)]
pub struct AppState {
    pub library: Library,
    pub current_index: Option<usize>,
    pub selected_index: usize,
    pub playback_state: PlaybackState,
    pub status_message: String,
}

impl AppState {
    /// The state is consistent: the current index, when there is one, names
    /// a song, and the cursor is on a song (or at 0 in an empty library).
    pub open spec fn wf(&self) -> bool {
        &&& (self.current_index matches Some(i) ==> i < self.library@.len())
        &&& (self.library@.len() == 0 ==> self.selected_index == 0)
        &&& (self.library@.len() > 0 ==> self.selected_index < self.library@.len())
    }

    /// The state at start: nothing playing, the cursor on the first song,
    /// playback stopped and a greeting in the status line.
    pub fn new(library: Library) -> (r: AppState)
        ensures
            r.library == library,
            r.current_index is None,
            r.selected_index == 0,
            r.playback_state == PlaybackState::Stopped,
            r.status_message@ == welcome_message(),
            r.wf(),
    {
        AppState {
            library,
            current_index: None,
            selected_index: 0,
            playback_state: PlaybackState::Stopped,
            status_message: String::from_str("欢迎使用 Rust 音乐播放器"),
        }
    }

    /// The title of the song being played, or the idle title.
    pub fn current_song_title(&self) -> (r: String)
        ensures
            r@ == current_title(self.library@, self.current_index),
    {
        match self.current_index {
            Some(idx) => match self.library.get(idx) {
                Some(song) => song.title.clone(),
                None => String::from_str("未在播放"),
            },
            None => String::from_str("未在播放"),
        }
    }

    /// Makes `index` the current song when it names one; otherwise clears the
    /// current song.
    pub fn set_current_index(&mut self, index: usize)
        ensures
            final(self).current_index == checked_index(old(self).library@.len(), index),
            final(self).library == old(self).library,
            final(self).selected_index == old(self).selected_index,
            final(self).playback_state == old(self).playback_state,
            final(self).status_message == old(self).status_message,
            old(self).wf() ==> final(self).wf(),
    {
        if index < self.library.len() {
            self.current_index = Some(index);
        } else {
            self.current_index = None;
        }
    }

    /// Sets the playback state.
    pub fn set_playback_state(&mut self, state: PlaybackState)
        ensures
            final(self).playback_state == state,
            final(self).library == old(self).library,
            final(self).current_index == old(self).current_index,
            final(self).selected_index == old(self).selected_index,
            final(self).status_message == old(self).status_message,
            old(self).wf() ==> final(self).wf(),
    {
        self.playback_state = state;
    }

    /// Sets the status line.
    pub fn set_status_message(&mut self, message: String)
        ensures
            final(self).status_message == message,
            final(self).library == old(self).library,
            final(self).current_index == old(self).current_index,
            final(self).selected_index == old(self).selected_index,
            final(self).playback_state == old(self).playback_state,
            old(self).wf() ==> final(self).wf(),
    {
        self.status_message = message;
    }

    /// Moves the cursor one song down, staying on the last song.
    pub fn select_next(&mut self)
        ensures
            final(self).selected_index == (if old(self).selected_index + 1 < old(self).library@.len() {
                old(self).selected_index + 1
            } else {
                old(self).selected_index as int
            }),
            final(self).library == old(self).library,
            final(self).current_index == old(self).current_index,
            final(self).playback_state == old(self).playback_state,
            final(self).status_message == old(self).status_message,
            old(self).wf() ==> final(self).wf(),
    {
        if self.selected_index < self.library.len() && self.selected_index + 1 < self.library.len() {
            self.selected_index = self.selected_index + 1;
        }
    }

    /// Moves the cursor one song up, staying on the first song.
    pub fn select_previous(&mut self)
        ensures
            final(self).selected_index == (if old(self).selected_index > 0 {
                old(self).selected_index - 1
            } else {
                0
            }),
            final(self).library == old(self).library,
            final(self).current_index == old(self).current_index,
            final(self).playback_state == old(self).playback_state,
            final(self).status_message == old(self).status_message,
            old(self).wf() ==> final(self).wf(),
    {
        if self.selected_index > 0 {
            self.selected_index = self.selected_index - 1;
        }
    }
}

/// Asking for an index makes it current exactly when it names a song, and
/// otherwise leaves no current song.
pub proof fn lemma_checked_index(len: nat, index: usize)
    ensures
        checked_index(len, index) matches Some(i) ==> i == index && index < len,
        checked_index(len, index) is None ==> index >= len,
{
}

/// The title line names the current song when there is one in the
/// library, and shows the idle title otherwise.
pub proof fn lemma_current_title(songs: Seq<SongView>, current: Option<usize>)
    ensures
        forall|i: usize|
            current == Some(i) && i < songs.len() ==> current_title(songs, current) == songs[i as int].title,
        !(current matches Some(i) && i < songs.len()) ==> current_title(songs, current) == idle_title(),
{
}

} // verus!
