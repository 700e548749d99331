//! The operations that the front end asks for, as far as they compute: each
//! takes the stores it works on and leaves locking and saving to its caller.

use vstd::prelude::*;
use crate::error::StoreError;
use crate::playlists::PlaylistDatabase;
use crate::songs::{Song, SongDatabase};
use crate::store::WellFormed;

verus! {

/// The identity is marked as a random one: its version field holds 4 and its
/// variant field the bits `10`.
pub open spec fn is_random_identity(id: u128) -> bool {
    id & 0x0000_0000_0000_f000_c000_0000_0000_0000u128
        == 0x0000_0000_0000_4000_8000_0000_0000_0000u128
}

/// Draws a new identity with `uuid::Uuid::new_v4` and hands it on as the 128
/// bits that `Uuid::as_u128` gives. The value is random; claimed is only that
/// the version and variant fields are those of a random identity, which
/// `new_v4` sets on whatever the generator gave. Nothing here is proved, and
/// `new_v4` ends the process where the system has no random bytes to give.
#[verifier::external_body]
fn fresh_song_id() -> (id: u128)
    ensures
        is_random_identity(id),
{
    uuid::Uuid::new_v4().as_u128()
}

/// Files a new song under a freshly drawn identity, which it returns.
pub fn cmd_add_song(
    index: &mut SongDatabase,
    path: String,
    name: String,
    album: Option<String>,
    author: Option<String>,
) -> (id: u128)
    ensures
        is_random_identity(id),
        final(index)@ == old(index)@.insert(
            id,
            (Song { songid: id, name, path, album, author }),
        ),
        old(index).wf() ==> final(index).wf(),
{
    let id: u128 = fresh_song_id();
    index.add_song(Song::new(id, name, path, album, author));
    id
}

/// Every identity in `ids` is filed in `index`.
pub open spec fn all_known(index: Map<u128, Song>, ids: Seq<u128>) -> bool {
    forall|i: int| 0 <= i < ids.len() ==> index.contains_key(#[trigger] ids[i])
}

/// The songs of one playlist, in the playlist's order, looked up in `index`.
/// A playlist may name a song that the index no longer holds; then an
/// unknown song is reported.
pub fn cmd_get_playlist_songs<'a>(
    playlists: &PlaylistDatabase,
    index: &'a SongDatabase,
    playlist: usize,
) -> (r: Result<Vec<&'a Song>, StoreError>)
    requires
        playlist < playlists.playlists@.len(),
    ensures
        match r {
            Ok(found) => {
                &&& all_known(index@, playlists.playlists@[playlist as int].songs@)
                &&& found@.len() == playlists.playlists@[playlist as int].songs@.len()
                &&& forall|i: int|
                    0 <= i < found@.len() ==> *(#[trigger] found@[i])
                        == index@[playlists.playlists@[playlist as int].songs@[i]]
            },
            Err(e) => e == StoreError::UnknownSong && !all_known(
                index@,
                playlists.playlists@[playlist as int].songs@,
            ),
        },
{
    let ids = playlists.playlists[playlist].get_songs();
    let mut found: Vec<&Song> = Vec::new();
    let mut k: usize = 0;
    while k < ids.len()
        invariant
            k <= ids@.len(),
            ids@ == playlists.playlists@[playlist as int].songs@,
            found@.len() == k,
            forall|i: int| 0 <= i < k ==> index@.contains_key(#[trigger] ids@[i]),
            forall|i: int| 0 <= i < k ==> *(#[trigger] found@[i]) == index@[ids@[i]],
        decreases ids@.len() - k,
    {
        match index.get_song(&ids[k]) {
            Some(song) => {
                found.push(song);
            },
            None => {
                assert(!index@.contains_key(ids@[k as int]));
                return Err(StoreError::UnknownSong);
            },
        }
        k = k + 1;
    }
    Ok(found)
}

/// Appends a song to the playlist at position `playlist` if `index` holds
/// the song, and reports an unknown song otherwise. No other playlist
/// changes.
pub fn cmd_add_song_to_playlist(
    playlists: &mut PlaylistDatabase,
    index: &SongDatabase,
    song: u128,
    playlist: usize,
) -> (r: Result<(), StoreError>)
    requires
        playlist < old(playlists).playlists@.len(),
    ensures
        final(playlists).playlists@.len() == old(playlists).playlists@.len(),
        forall|i: int|
            0 <= i < old(playlists).playlists@.len() && i != playlist
                ==> final(playlists).playlists@[i] == old(playlists).playlists@[i],
        index@.contains_key(song) ==> r == Ok::<(), StoreError>(())
            && final(playlists).playlists@[playlist as int].differs_in_songs(
            &old(playlists).playlists@[playlist as int],
            old(playlists).playlists@[playlist as int].songs@.push(song),
        ),
        !index@.contains_key(song) ==> r == Err::<(), StoreError>(StoreError::UnknownSong)
            && final(playlists).playlists@[playlist as int].differs_in_songs(
            &old(playlists).playlists@[playlist as int],
            old(playlists).playlists@[playlist as int].songs@,
        ),
        old(playlists).wf() ==> final(playlists).wf(),
{
    playlists.playlists[playlist].add_song(song, index)
}

} // verus!
