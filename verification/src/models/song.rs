//! A song of the library.
use vstd::prelude::*;

verus! {

/// A song: its identifier in the library, its title and the path of its file.
#[derive(Debug, Clone)]
pub struct Song {
    pub id: usize,
    pub title: String,
    pub path: String,
}

/// A song as plain values.
pub struct SongView {
    pub id: nat,
    pub title: Seq<char>,
    pub path: Seq<char>,
}

impl View for Song {
    type V = SongView;

    open spec fn view(&self) -> SongView {
        SongView { id: self.id as nat, title: self.title@, path: self.path@ }
    }
}

} // verus!
