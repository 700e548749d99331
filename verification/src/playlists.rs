//! Playlists: ordered lists of song identities, each playlist known by its
//! position in the index.

use vstd::prelude::*;
use crate::error::StoreError;
use crate::songs::SongDatabase;
use crate::store::WellFormed;

verus! {

/// A playlist. `songs` may name a song more than once; `current_song_index`
/// is the cursor into `songs`, unset until something is played.
#[derive(Debug, Default, Clone, PartialEq, Eq)]
pub struct Playlist {
    pub id: usize,
    pub name: String,
    pub desc: Option<String>,
    pub current_song_index: Option<usize>,
    pub songs: Vec<u128>,
}

impl Playlist {
    /// This playlist is `before` with `songs` for its list of songs: identity,
    /// name, description and cursor are those of `before`.
    pub open spec fn differs_in_songs(&self, before: &Playlist, songs: Seq<u128>) -> bool {
        &&& self.id == before.id
        &&& self.name == before.name
        &&& self.desc == before.desc
        &&& self.current_song_index == before.current_song_index
        &&& self.songs@ == songs
    }

    /// This playlist is as `new` makes it: it has the identity, name and
    /// description given, no cursor and no songs.
    pub open spec fn is_new(&self, id: usize, name: String, desc: Option<String>) -> bool {
        &&& self.id == id
        &&& self.name == name
        &&& self.desc == desc
        &&& self.current_song_index.is_none()
        &&& self.songs@ == Seq::<u128>::empty()
    }

    /// An empty playlist with no cursor.
    pub fn new(id: usize, name: String, desc: Option<String>) -> (r: Playlist)
        ensures
            r.is_new(id, name, desc),
    {
        Playlist { id, name, desc, current_song_index: None, songs: Vec::new() }
    }

    /// The playlist's songs, in order.
    pub fn get_songs(&self) -> (r: &Vec<u128>)
        ensures
            r@ == self.songs@,
    {
        &self.songs
    }

    /// Appends `song` if `index` holds it when asked, and reports an unknown
    /// song otherwise, leaving the playlist as it was.
    pub fn add_song(&mut self, song: u128, index: &SongDatabase) -> (r: Result<(), StoreError>)
        ensures
            index@.contains_key(song) ==> r == Ok::<(), StoreError>(()) && final(self).differs_in_songs(
                old(self),
                old(self).songs@.push(song),
            ),
            !index@.contains_key(song) ==> r == Err::<(), StoreError>(StoreError::UnknownSong)
                && final(self).differs_in_songs(old(self), old(self).songs@),
    {
        if index.get_song(&song).is_none() {
            return Err(StoreError::UnknownSong);
        }
        self.songs.push(song);
        Ok(())
    }
}

/// The playlists that the application knows.
#[derive(Debug)]
pub struct PlaylistDatabase {
    pub playlists: Vec<Playlist>,
}

impl Default for PlaylistDatabase {
    fn default() -> (r: PlaylistDatabase)
        ensures
            r.playlists@ == Seq::<Playlist>::empty(),
            r.wf(),
    {
        PlaylistDatabase { playlists: Vec::new() }
    }
}

impl WellFormed for PlaylistDatabase {
    /// Every playlist's identity is its position.
    open spec fn wf(&self) -> bool {
        forall|i: int| 0 <= i < self.playlists@.len() ==> (#[trigger] self.playlists@[i]).id == i
    }

    fn is_well_formed(&self) -> (r: bool) {
        let mut k: usize = 0;
        while k < self.playlists.len()
            invariant
                k <= self.playlists@.len(),
                forall|i: int| 0 <= i < k ==> (#[trigger] self.playlists@[i]).id == i,
            decreases self.playlists@.len() - k,
        {
            if self.playlists[k].id != k {
                return false;
            }
            k = k + 1;
        }
        true
    }
}

impl PlaylistDatabase {
    /// Appends an empty playlist whose identity is the number of playlists
    /// that were there before, and hands back a copy of it.
    pub fn add_playlist(&mut self, name: String, desc: Option<String>) -> (r: Playlist)
        ensures
            final(self).playlists@.len() == old(self).playlists@.len() + 1,
            final(self).playlists@.subrange(0, old(self).playlists@.len() as int)
                == old(self).playlists@,
            final(self).playlists@.last().is_new(old(self).playlists.len(), name, desc),
            r.is_new(old(self).playlists.len(), name, desc),
            old(self).wf() ==> final(self).wf(),
    {
        let id: usize = self.playlists.len();
        let name_copy = name.clone();
        let desc_copy = match &desc {
            Some(text) => Some(text.clone()),
            None => None,
        };
        self.playlists.push(Playlist::new(id, name, desc));
        assert(self.playlists@.subrange(0, id as int) =~= old(self).playlists@);
        Playlist::new(id, name_copy, desc_copy)
    }
}

} // verus!
