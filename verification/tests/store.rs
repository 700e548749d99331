use std::collections::HashMap;

use boberplayer::error::StoreError;
use boberplayer::playlists::{Playlist, PlaylistDatabase};
use boberplayer::servers::{IpAddress, Server, ServerDatabase};
use boberplayer::songs::{Song, SongDatabase};
use boberplayer::store::{
    get_config_file, AsyncDataHandler, Loaded, Resolution, ResolveStep, SaveNext, SaveStep,
    WellFormed,
};

fn filed(key: u128, songid: u128) -> SongDatabase {
    let mut songs = HashMap::new();
    songs.insert(key, Song::new(songid, "s".to_string(), "/s".to_string(), None, None));
    SongDatabase { songs }
}

fn walk(outcomes: &[Option<bool>]) -> (Vec<ResolveStep>, Resolution) {
    let mut step = ResolveStep::LocateDataDir;
    let mut taken = Vec::new();
    for outcome in outcomes {
        taken.push(step);
        match get_config_file(step, *outcome) {
            Resolution::Next(next) => step = next,
            end => return (taken, end),
        }
    }
    (taken, Resolution::Next(step))
}

#[test]
fn existing_file_is_opened() {
    let (taken, end) = walk(&[Some(true), Some(true), Some(true), Some(true)]);
    assert_eq!(
        taken,
        vec![
            ResolveStep::LocateDataDir,
            ResolveStep::ProbeDir,
            ResolveStep::ProbeFile,
            ResolveStep::OpenFile
        ]
    );
    assert_eq!(end, Resolution::Ready);
}

#[test]
fn missing_directory_and_file_are_created() {
    let (taken, end) = walk(&[Some(true), Some(false), Some(true), Some(false), Some(true)]);
    assert_eq!(
        taken,
        vec![
            ResolveStep::LocateDataDir,
            ResolveStep::ProbeDir,
            ResolveStep::CreateDir,
            ResolveStep::ProbeFile,
            ResolveStep::CreateFile
        ]
    );
    assert_eq!(end, Resolution::Ready);
}

#[test]
fn no_data_directory_is_unavailable() {
    assert_eq!(walk(&[Some(false)]).1, Resolution::Failed(StoreError::DirectoryUnavailable));
    assert_eq!(walk(&[None]).1, Resolution::Failed(StoreError::DirectoryUnavailable));
}

#[test]
fn directory_that_cannot_be_made_fails() {
    assert_eq!(
        walk(&[Some(true), Some(false), None]).1,
        Resolution::Failed(StoreError::DirectoryCreateFailed)
    );
    assert_eq!(
        walk(&[Some(true), None, Some(false)]).1,
        Resolution::Failed(StoreError::DirectoryCreateFailed)
    );
}

#[test]
fn file_failures_are_open_failures() {
    let failed = Resolution::Failed(StoreError::FileOpenFailed);
    assert_eq!(walk(&[Some(true), Some(true), None]).1, failed);
    assert_eq!(walk(&[Some(true), Some(true), Some(true), None]).1, failed);
    assert_eq!(walk(&[Some(true), Some(true), Some(true), Some(false)]).1, failed);
    assert_eq!(walk(&[Some(true), Some(true), Some(false), None]).1, failed);
    assert_eq!(walk(&[Some(true), Some(true), Some(false), Some(false)]).1, failed);
}

fn one_server() -> ServerDatabase {
    ServerDatabase { servers: vec![Server::new(IpAddress::V4(1), "alpha".to_string())] }
}

#[test]
fn store_holds_what_was_read() {
    let store = AsyncDataHandler::new(Ok(()), Loaded::Parsed(one_server())).unwrap();
    assert_eq!(store.get().servers, one_server().servers);
    let songs = AsyncDataHandler::new(Ok(()), Loaded::Parsed(filed(3, 3))).unwrap();
    assert_eq!(songs.get().get_song(&3).map(|s| s.songid), Some(3));
}

#[test]
fn store_defaults_on_bad_text() {
    let store = AsyncDataHandler::<ServerDatabase>::new(Ok(()), Loaded::Unparsable).unwrap();
    assert!(store.get().servers.is_empty());
    let store = AsyncDataHandler::<PlaylistDatabase>::new(Ok(()), Loaded::Unreadable).unwrap();
    assert!(store.get().playlists.is_empty());
    let store = AsyncDataHandler::<SongDatabase>::new(Ok(()), Loaded::Unparsable).unwrap();
    assert!(store.get().songs.is_empty());
}

#[test]
fn store_defaults_on_a_broken_invariant() {
    let unsorted = ServerDatabase {
        servers: vec![
            Server::new(IpAddress::V4(1), "beta".to_string()),
            Server::new(IpAddress::V4(2), "alpha".to_string()),
        ],
    };
    let store = AsyncDataHandler::new(Ok(()), Loaded::Parsed(unsorted)).unwrap();
    assert!(store.get().servers.is_empty());
    let misnumbered =
        PlaylistDatabase { playlists: vec![Playlist::new(4, "p".to_string(), None)] };
    let store = AsyncDataHandler::new(Ok(()), Loaded::Parsed(misnumbered)).unwrap();
    assert!(store.get().playlists.is_empty());
    let store = AsyncDataHandler::new(Ok(()), Loaded::Parsed(filed(1, 2))).unwrap();
    assert!(store.get().songs.is_empty());
}

#[test]
fn well_formedness_of_songs_and_playlists() {
    assert!(SongDatabase::default().is_well_formed());
    assert!(filed(7, 7).is_well_formed());
    assert!(!filed(7, 8).is_well_formed());
    let mut playlists = PlaylistDatabase::default();
    assert!(playlists.is_well_formed());
    playlists.add_playlist("a".to_string(), None);
    playlists.add_playlist("b".to_string(), None);
    assert!(playlists.is_well_formed());
    playlists.playlists[1].id = 0;
    assert!(!playlists.is_well_formed());
}

#[test]
fn store_construction_fails_with_the_file() {
    for e in [
        StoreError::DirectoryUnavailable,
        StoreError::DirectoryCreateFailed,
        StoreError::FileOpenFailed,
    ] {
        let r = AsyncDataHandler::new(Err(e), Loaded::Parsed(one_server()));
        assert_eq!(r.err(), Some(e));
    }
}

#[test]
fn store_change_is_seen_by_later_reads() {
    let mut store = AsyncDataHandler::<ServerDatabase>::new(Ok(()), Loaded::Unreadable).unwrap();
    store.get_mut().add_server("alpha".to_string(), Some(IpAddress::V4(1))).unwrap();
    assert_eq!(store.get().servers, one_server().servers);
    *store.get_mut() = ServerDatabase::default();
    assert!(store.data.servers.is_empty());
}

#[test]
fn errors_have_their_words() {
    assert_eq!(StoreError::DirectoryUnavailable.message(), "Couldn't access data directory!");
    assert_eq!(
        StoreError::DirectoryCreateFailed.message(),
        "Couldn't create boberplayer data directory!"
    );
    assert_eq!(StoreError::FileOpenFailed.message(), "Couldn't open file");
    assert_eq!(StoreError::SerializationFailed.message(), "Couldn't serialize the data");
    assert_eq!(StoreError::WriteFailed.message(), "Couldn't write data to file!");
    assert_eq!(StoreError::AddressParseError.message(), "Couldn't parse the address");
    assert_eq!(StoreError::UnknownSong.message(), "No song with uuid found");
}

#[test]
fn save_encodes_then_writes() {
    assert_eq!(
        AsyncDataHandler::<ServerDatabase>::save(SaveStep::Encode, true),
        SaveNext::Next(SaveStep::Write)
    );
    assert_eq!(AsyncDataHandler::<ServerDatabase>::save(SaveStep::Write, true), SaveNext::Saved);
    assert_eq!(
        AsyncDataHandler::<ServerDatabase>::save(SaveStep::Encode, false),
        SaveNext::Failed(StoreError::SerializationFailed)
    );
    assert_eq!(
        AsyncDataHandler::<ServerDatabase>::save(SaveStep::Write, false),
        SaveNext::Failed(StoreError::WriteFailed)
    );
}
