//! The index of songs, keyed by each song's identity.

use std::collections::HashMap;
use vstd::prelude::*;
use vstd::std_specs::hash::*;
use vstd::std_specs::iter::IteratorSpec;
use crate::store::WellFormed;

verus! {

broadcast use group_hash_axioms;

/// A song. Its identity is a 128-bit value that no other song shares.
#[derive(Debug, Default, Clone, PartialEq, Eq)]
pub struct Song {
    pub songid: u128,
    pub name: String,
    pub path: String,
    pub album: Option<String>,
    pub author: Option<String>,
}

impl Song {
    pub fn new(
        songid: u128,
        name: String,
        path: String,
        album: Option<String>,
        author: Option<String>,
    ) -> (r: Song)
        ensures
            r == (Song { songid, name, path, album, author }),
    {
        Song { songid, name, path, album, author }
    }
}

/// The songs that the application knows.
#[derive(Debug)]
pub struct SongDatabase {
    pub songs: HashMap<u128, Song>,
}

impl View for SongDatabase {
    type V = Map<u128, Song>;

    open spec fn view(&self) -> Map<u128, Song> {
        self.songs@
    }
}

impl Default for SongDatabase {
    fn default() -> (r: SongDatabase)
        ensures
            r@ == Map::<u128, Song>::empty(),
            r.wf(),
    {
        SongDatabase { songs: HashMap::new() }
    }
}

/// `songs` lists what `index` holds: `ids` names every filed identity
/// exactly once, and `songs` holds, place by place, the songs filed under
/// them.
pub open spec fn lists(index: Map<u128, Song>, ids: Seq<u128>, songs: Seq<&Song>) -> bool {
    &&& ids.no_duplicates()
    &&& ids.to_set() == index.dom()
    &&& songs.len() == ids.len()
    &&& forall|i: int| 0 <= i < songs.len() ==> *(#[trigger] songs[i]) == index[ids[i]]
}

impl WellFormed for SongDatabase {
    /// Every song is filed under its own identity.
    open spec fn wf(&self) -> bool {
        forall|id: u128| self@.contains_key(id) ==> (#[trigger] self@[id]).songid == id
    }

    fn is_well_formed(&self) -> (r: bool) {
        let entries = self.songs.iter();
        let ghost pairs = entries.remaining();
        for entry in it: entries
            invariant
                it.seq() == pairs,
                pairs == spec_hash_map_iter(&self.songs).remaining(),
                forall|j: int| 0 <= j < it.index() ==> *(#[trigger] pairs[j]).0 == pairs[j].1.songid,
        {
            if *entry.0 != entry.1.songid {
                proof {
                    let at = it.index();
                    assert(self@.contains_key(*pairs[at].0) && self@[*pairs[at].0] == *pairs[at].1);
                }
                return false;
            }
        }
        proof {
            assert forall|id: u128| self@.contains_key(id) implies (#[trigger] self@[id]).songid
                == id by {
                let i = choose|i: int| 0 <= i < pairs.len() && pairs[i] == (&id, &self@[id]);
                assert(*pairs[i].0 == pairs[i].1.songid);
            }
        }
        true
    }
}

impl SongDatabase {
    /// Files the song under its identity; a song already filed there is
    /// replaced.
    pub fn add_song(&mut self, song: Song)
        ensures
            final(self)@ == old(self)@.insert(song.songid, song),
            old(self).wf() ==> final(self).wf(),
    {
        self.songs.insert(song.songid, song);
    }

    /// The song of this identity, if the index holds one.
    pub fn get_song(&self, uuid: &u128) -> (r: Option<&Song>)
        ensures
            match r {
                Some(song) => self@.contains_key(*uuid) && *song == self@[*uuid],
                None => !self@.contains_key(*uuid),
            },
    {
        self.songs.get(uuid)
    }

    /// Every song of the index, once for each identity that is filed, in no
    /// particular order.
    pub fn get_all_songs(&self) -> (r: Vec<&Song>)
        ensures
            r@.len() == self@.dom().len(),
            exists|ids: Seq<u128>| lists(self@, ids, r@),
    {
        let entries = self.songs.iter();
        let ghost pairs = entries.remaining();
        let mut all: Vec<&Song> = Vec::new();
        for entry in it: entries
            invariant
                all@.len() == it.index(),
                it.seq() == pairs,
                forall|j: int| 0 <= j < all@.len() ==> all@[j] == (#[trigger] pairs[j]).1,
        {
            all.push(entry.1);
        }
        proof {
            let ids = Seq::new(pairs.len(), |i: int| *pairs[i].0);
            assert forall|i: int, j: int| 0 <= i < ids.len() && 0 <= j < ids.len() && i != j implies ids[i]
                != ids[j] by {
                assert(self@[*pairs[i].0] == *pairs[i].1);
                assert(self@[*pairs[j].0] == *pairs[j].1);
                assert(pairs[i] != pairs[j]);
            }
            assert forall|id: u128| self@.contains_key(id) implies ids.contains(id) by {
                let i = choose|i: int| 0 <= i < pairs.len() && pairs[i] == (&id, &self@[id]);
                assert(ids[i] == id);
            }
            assert forall|id: u128| ids.contains(id) implies self@.contains_key(id) by {
                let i = choose|i: int| 0 <= i < ids.len() && ids[i] == id;
                assert(self@.contains_key(*pairs[i].0));
            }
            assert(ids.to_set() =~= self@.dom());
            assert forall|i: int| 0 <= i < all@.len() implies *(#[trigger] all@[i]) == self@[ids[i]] by {
                assert(self@[*pairs[i].0] == *pairs[i].1);
            }
            assert(lists(self@, ids, all@));
        }
        all
    }
}

} // verus!
