//! The song library and its circular navigation.
use vstd::prelude::*;

use crate::models::song::{Song, SongView};

verus! {

/// The songs of the library, in the order in which they were added.
#[derive(Debug, Clone)]
pub struct Library {
    pub songs: Vec<Song>,
}

impl View for Library {
    type V = Seq<SongView>;

    open spec fn view(&self) -> Seq<SongView> {
        self.songs@.map_values(|s: Song| s@)
    }
}

/// The position after `current` in a library of `len` songs, wrapping from
/// the last song to the first; none in an empty library.
pub open spec fn next_position(len: nat, current: usize) -> Option<usize> {
    if len == 0 {
        None
    } else {
        Some(((current + 1) % (len as int)) as usize)
    }
}

/// The position before `current` in a library of `len` songs, wrapping from
/// the first song to the last; none in an empty library.
pub open spec fn previous_position(len: nat, current: usize) -> Option<usize> {
    if len == 0 {
        None
    } else if current == 0 {
        Some((len - 1) as usize)
    } else {
        Some((current - 1) as usize)
    }
}

impl Default for Library {
    fn default() -> (r: Library)
        ensures
            r@.len() == 0,
    {
        Library { songs: Vec::new() }
    }
}

impl Library {
    /// Whether the library holds no song.
    pub fn is_empty(&self) -> (r: bool)
        ensures
            r == (self@.len() == 0),
    {
        self.songs.len() == 0
    }

    /// The number of songs.
    pub fn len(&self) -> (r: usize)
        ensures
            r == self@.len(),
    {
        self.songs.len()
    }

    /// The song at `index`, if there is one.
    pub fn get(&self, index: usize) -> (r: Option<&Song>)
        ensures
            index < self@.len() ==> r == Some(&self.songs@[index as int]),
            index >= self@.len() ==> r is None,
    {
        if index < self.songs.len() {
            Some(&self.songs[index])
        } else {
            None
        }
    }

    /// The index of the song that follows `current` in circular order.
    pub fn next_index(&self, current: usize) -> (r: Option<usize>)
        requires
            self@.len() == 0 || current < usize::MAX,
        ensures
            r == next_position(self@.len(), current),
    {
        if self.is_empty() {
            return None;
        }
        Some((current + 1) % self.len())
    }

    /// The index of the song that precedes `current` in circular order.
    pub fn previous_index(&self, current: usize) -> (r: Option<usize>)
        ensures
            r == previous_position(self@.len(), current),
    {
        if self.is_empty() {
            return None;
        }
        if current == 0 {
            Some(self.len() - 1)
        } else {
            Some(current - 1)
        }
    }
}

/// Circular navigation stays inside the library: from any position of a
/// non-empty library, the next position is a valid index, and so is the
/// previous position of any valid index.
pub proof fn lemma_navigation_in_range(len: nat, current: usize)
    requires
        0 < len <= usize::MAX,
    ensures
        next_position(len, current) matches Some(n) && n < len,
        current < len ==> (previous_position(len, current) matches Some(p) && p < len),
{
}

/// Stepping forward then back, or back then forward, returns to the song one
/// started from: the last song is followed by the first, and the first is
/// preceded by the last.
pub proof fn lemma_next_previous_inverse(len: nat, current: usize)
    requires
        current < len <= usize::MAX,
    ensures
        previous_position(len, next_position(len, current)->0) == Some(current),
        next_position(len, previous_position(len, current)->0) == Some(current),
        current + 1 == len ==> next_position(len, current) == Some(0usize),
        current == 0 ==> previous_position(len, current) == Some((len - 1) as usize),
{
    if current + 1 < len {
        assert((current + 1) % (len as int) == current + 1) by (nonlinear_arith)
            requires
                0 <= current + 1 < len,
        ;
    } else {
        assert((current + 1) % (len as int) == 0) by (nonlinear_arith)
            requires
                current + 1 == len,
                len > 0,
        ;
    }
    if current == 0 {
        assert(((len - 1) + 1) % (len as int) == 0) by (nonlinear_arith)
            requires
                len > 0,
        ;
    } else {
        assert(((current - 1) + 1) % (len as int) == current) by (nonlinear_arith)
            requires
                0 < current < len,
        ;
    }
}

} // verus!
