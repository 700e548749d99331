//! What is playing: at most one playlist is active at a time.

use vstd::prelude::*;
use crate::playlists::PlaylistDatabase;

verus! {

/// The player's state, kept for the life of the process only.
#[derive(Debug)]
pub struct PlayerState {
    pub current_playlist: Option<usize>,
}

impl Default for PlayerState {
    fn default() -> (r: PlayerState)
        ensures
            r.current_playlist.is_none(),
    {
        PlayerState { current_playlist: None }
    }
}

/// The song after the cursor in a list of songs; a cursor that was never set
/// counts as 0. There is none where the list ends at the cursor or before it.
pub open spec fn song_after(songs: Seq<u128>, cursor: Option<usize>) -> Option<u128> {
    let at: int = match cursor {
        Some(c) => c as int,
        None => 0,
    };
    if at + 1 < songs.len() {
        Some(songs[at + 1])
    } else {
        None
    }
}

impl PlayerState {
    /// The song that follows in the active playlist: none while no playlist
    /// is active, or where the active index names no playlist of `index`.
    pub open spec fn next_song(&self, index: &PlaylistDatabase) -> Option<u128> {
        match self.current_playlist {
            None => None,
            Some(p) => if p < index.playlists@.len() {
                song_after(
                    index.playlists@[p as int].songs@,
                    index.playlists@[p as int].current_song_index,
                )
            } else {
                None
            },
        }
    }

    /// The song that follows the cursor in the active playlist, if there is
    /// an active playlist and it has such a song.
    pub fn get_next_song(&self, index: &PlaylistDatabase) -> (r: Option<u128>)
        ensures
            r == self.next_song(index),
    {
        let active: usize = match self.current_playlist {
            Some(p) => p,
            None => {
                return None;
            },
        };
        if active >= index.playlists.len() {
            return None;
        }
        let playlist = &index.playlists[active];
        let cursor: usize = match playlist.current_song_index {
            Some(c) => c,
            None => 0,
        };
        let songs = playlist.get_songs();
        if songs.len() >= 2 && cursor <= songs.len() - 2 {
            Some(songs[cursor + 1])
        } else {
            None
        }
    }

    /// Starts a song. Playback itself is not the player state's business, so
    /// the state stays as it is.
    pub fn play(&mut self, song: u128)
        ensures
            *final(self) == *old(self),
    {
    }
}

} // verus!
