//! What can go wrong in the library, one variant per failure.

use vstd::prelude::*;

verus! {

/// The failures that the stores report.
#[derive(Clone, Copy, Debug, PartialEq, Eq, Structural)]
pub enum StoreError {
    /// The platform names no per-user data directory.
    DirectoryUnavailable,
    /// The application's data directory is absent and could not be made.
    DirectoryCreateFailed,
    /// The backing file could not be probed, created or opened.
    FileOpenFailed,
    /// The value could not be encoded as text.
    SerializationFailed,
    /// The encoded value could not be written to the backing file.
    WriteFailed,
    /// The text given for a server's address is no network address.
    AddressParseError,
    /// A playlist was handed a song that the song index does not hold.
    UnknownSong,
}

impl StoreError {
    /// The failure in words.
    pub open spec fn message_text(self) -> Seq<char> {
        match self {
            StoreError::DirectoryUnavailable => "Couldn't access data directory!"@,
            StoreError::DirectoryCreateFailed => "Couldn't create boberplayer data directory!"@,
            StoreError::FileOpenFailed => "Couldn't open file"@,
            StoreError::SerializationFailed => "Couldn't serialize the data"@,
            StoreError::WriteFailed => "Couldn't write data to file!"@,
            StoreError::AddressParseError => "Couldn't parse the address"@,
            StoreError::UnknownSong => "No song with uuid found"@,
        }
    }

    /// The failure in words, for a log or a message to the user.
    pub fn message(&self) -> (r: &'static str)
        ensures
            r@ == self.message_text(),
    {
        match self {
            StoreError::DirectoryUnavailable => "Couldn't access data directory!",
            StoreError::DirectoryCreateFailed => "Couldn't create boberplayer data directory!",
            StoreError::FileOpenFailed => "Couldn't open file",
            StoreError::SerializationFailed => "Couldn't serialize the data",
            StoreError::WriteFailed => "Couldn't write data to file!",
            StoreError::AddressParseError => "Couldn't parse the address",
            StoreError::UnknownSong => "No song with uuid found",
        }
    }
}

} // verus!
