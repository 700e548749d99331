//! The core of a small music player: an index of songs, playlists over it, a
//! name-ordered list of remote servers, and the decisions that keep each of
//! them mirrored to a file.

pub mod names;
pub mod error;
pub mod servers;
pub mod songs;
pub mod playlists;
pub mod player;
pub mod commands;
pub mod store;
