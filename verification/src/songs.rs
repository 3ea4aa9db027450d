//! The song table: every song the build knows, addressed by a small integer
//! identifier that is validated against the table before any lookup.

use vstd::prelude::*;

use crate::song_data::{Fragment, SongData};

verus! {

/// A small integer naming one song of the table.
#[derive(Clone, Copy, Debug, PartialEq, Eq, Structural)]
pub struct SongID(pub usize);

/// The fixed table of songs, built once at startup and immutable afterwards.
pub struct SongTable {
    pub songs: Vec<SongData>,
}

impl SongID {
    pub fn new(value: usize) -> (r: Self)
        ensures
            r.0 == value,
    {
        Self(value)
    }

    /// Whether this identifier names a song of the table.
    pub open spec fn valid(&self, songs: &SongTable) -> bool {
        self.0 < songs.songs@.len()
    }

    pub fn name<'a>(&self, songs: &'a SongTable) -> (r: &'a String)
        requires
            self.valid(songs),
        ensures
            r == songs.songs@[self.0 as int].name,
    {
        songs.get(*self).name()
    }

    pub fn sound<'a>(&self, songs: &'a SongTable) -> (r: &'a Vec<u8>)
        requires
            self.valid(songs),
        ensures
            r == songs.songs@[self.0 as int].sound,
    {
        songs.get(*self).sound()
    }

    pub fn fragments<'a>(&self, songs: &'a SongTable) -> (r: &'a Vec<Fragment>)
        requires
            self.valid(songs),
        ensures
            r == songs.songs@[self.0 as int].fragments,
    {
        songs.get(*self).fragments()
    }
}

impl SongTable {
    /// Every song of the table carries a valid timeline.
    pub open spec fn wf(&self) -> bool {
        forall|i: int| 0 <= i < self.songs@.len() ==> (#[trigger] self.songs@[i]).wf()
    }

    pub fn new() -> (r: Self)
        ensures
            r.songs@.len() == 0,
            r.wf(),
    {
        Self { songs: Vec::new() }
    }

    pub fn push(&mut self, song: SongData)
        requires
            old(self).wf(),
            song.wf(),
        ensures
            final(self).songs@ == old(self).songs@.push(song),
            final(self).wf(),
    {
        self.songs.push(song);
    }

    pub fn len(&self) -> (r: usize)
        ensures
            r == self.songs@.len(),
    {
        self.songs.len()
    }

    pub fn get(&self, id: SongID) -> (r: &SongData)
        requires
            id.valid(self),
        ensures
            r == self.songs@[id.0 as int],
    {
        &self.songs[id.0]
    }
}

} // verus!
