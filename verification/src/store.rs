//! The decisions of a persisted store: how its backing file is found, what
//! it holds after construction, and how a save proceeds. The caller touches
//! the disk and reports what happened; what to do next is decided here.

use vstd::prelude::*;
use crate::error::StoreError;

verus! {

/// An action on the way to an open backing file.
#[derive(Clone, Copy, Debug, PartialEq, Eq, Structural)]
pub enum ResolveStep {
    /// Ask the platform for the per-user data directory.
    LocateDataDir,
    /// Ask whether the application's directory exists inside it.
    ProbeDir,
    /// Create the application's directory.
    CreateDir,
    /// Ask whether the file exists in the application's directory.
    ProbeFile,
    /// Create the file, empty.
    CreateFile,
    /// Open the existing file for reading and writing.
    OpenFile,
}

/// What follows an action.
#[derive(Clone, Copy, Debug, PartialEq, Eq, Structural)]
pub enum Resolution {
    /// Perform this action next.
    Next(ResolveStep),
    /// The file is open.
    Ready,
    /// The file cannot be had.
    Failed(StoreError),
}

/// What follows `step`, given how it ended: `Some(true)` if the thing asked
/// for exists or the action succeeded, `Some(false)` if it does not exist,
/// `None` if the attempt itself failed.
///
/// A directory that cannot be probed is treated as absent, and so is created;
/// a file that cannot be probed is a failure.
pub open spec fn resolution(step: ResolveStep, outcome: Option<bool>) -> Resolution {
    match step {
        ResolveStep::LocateDataDir => if outcome == Some(true) {
            Resolution::Next(ResolveStep::ProbeDir)
        } else {
            Resolution::Failed(StoreError::DirectoryUnavailable)
        },
        ResolveStep::ProbeDir => if outcome == Some(true) {
            Resolution::Next(ResolveStep::ProbeFile)
        } else {
            Resolution::Next(ResolveStep::CreateDir)
        },
        ResolveStep::CreateDir => if outcome == Some(true) {
            Resolution::Next(ResolveStep::ProbeFile)
        } else {
            Resolution::Failed(StoreError::DirectoryCreateFailed)
        },
        ResolveStep::ProbeFile => match outcome {
            Some(true) => Resolution::Next(ResolveStep::OpenFile),
            Some(false) => Resolution::Next(ResolveStep::CreateFile),
            None => Resolution::Failed(StoreError::FileOpenFailed),
        },
        ResolveStep::CreateFile | ResolveStep::OpenFile => if outcome == Some(true) {
            Resolution::Ready
        } else {
            Resolution::Failed(StoreError::FileOpenFailed)
        },
    }
}

/// How many actions can still follow `step`, itself included.
pub open spec fn steps_left(step: ResolveStep) -> nat {
    match step {
        ResolveStep::LocateDataDir => 5,
        ResolveStep::ProbeDir => 4,
        ResolveStep::CreateDir => 3,
        ResolveStep::ProbeFile => 2,
        ResolveStep::CreateFile => 1,
        ResolveStep::OpenFile => 1,
    }
}

/// Decides what follows an action on the way to the backing file. The way
/// starts at `ResolveStep::LocateDataDir`.
pub fn get_config_file(step: ResolveStep, outcome: Option<bool>) -> (r: Resolution)
    ensures
        r == resolution(step, outcome),
{
    let done: bool = match outcome {
        Some(yes) => yes,
        None => false,
    };
    match step {
        ResolveStep::LocateDataDir => {
            if done {
                Resolution::Next(ResolveStep::ProbeDir)
            } else {
                Resolution::Failed(StoreError::DirectoryUnavailable)
            }
        },
        ResolveStep::ProbeDir => {
            if done {
                Resolution::Next(ResolveStep::ProbeFile)
            } else {
                Resolution::Next(ResolveStep::CreateDir)
            }
        },
        ResolveStep::CreateDir => {
            if done {
                Resolution::Next(ResolveStep::ProbeFile)
            } else {
                Resolution::Failed(StoreError::DirectoryCreateFailed)
            }
        },
        ResolveStep::ProbeFile => {
            if done {
                Resolution::Next(ResolveStep::OpenFile)
            } else if outcome.is_some() {
                Resolution::Next(ResolveStep::CreateFile)
            } else {
                Resolution::Failed(StoreError::FileOpenFailed)
            }
        },
        ResolveStep::CreateFile => {
            if done {
                Resolution::Ready
            } else {
                Resolution::Failed(StoreError::FileOpenFailed)
            }
        },
        ResolveStep::OpenFile => {
            if done {
                Resolution::Ready
            } else {
                Resolution::Failed(StoreError::FileOpenFailed)
            }
        },
    }
}

/// Every action brings the end nearer, so the way to the file takes at most
/// five actions.
pub proof fn lemma_resolution_progress(step: ResolveStep, outcome: Option<bool>)
    ensures
        match resolution(step, outcome) {
            Resolution::Next(next) => steps_left(next) < steps_left(step),
            _ => true,
        },
{
}

/// Each failure has its place: no data directory only at the first action, a
/// directory that cannot be made only where it is made, and a file failure
/// only at the three actions on the file.
pub proof fn lemma_resolution_failures(step: ResolveStep, outcome: Option<bool>)
    ensures
        resolution(step, outcome) == Resolution::Failed(StoreError::DirectoryUnavailable) <==> step
            == ResolveStep::LocateDataDir && outcome != Some(true),
        resolution(step, outcome) == Resolution::Failed(StoreError::DirectoryCreateFailed) <==> step
            == ResolveStep::CreateDir && outcome != Some(true),
        resolution(step, outcome) is Failed ==> resolution(step, outcome)->Failed_0
            == StoreError::DirectoryUnavailable || resolution(step, outcome)->Failed_0
            == StoreError::DirectoryCreateFailed || resolution(step, outcome)->Failed_0
            == StoreError::FileOpenFailed,
        resolution(step, outcome) == Resolution::Ready ==> outcome == Some(true) && (step
            == ResolveStep::CreateFile || step == ResolveStep::OpenFile),
{
}

/// A type whose values may break an invariant that its operations rely on,
/// as a value read from a file may.
pub trait WellFormed {
    /// The value keeps the type's invariant.
    spec fn wf(&self) -> bool;

    /// Tells whether the value keeps the type's invariant.
    fn is_well_formed(&self) -> (r: bool)
        ensures
            r == self.wf(),
    ;
}

/// How reading a store's file went.
#[derive(Debug)]
pub enum Loaded<T> {
    /// The file's text was read and is a value.
    Parsed(T),
    /// The file's text was read and is no value.
    Unparsable,
    /// The file's text could not be read.
    Unreadable,
}

/// A step of a save.
#[derive(Clone, Copy, Debug, PartialEq, Eq, Structural)]
pub enum SaveStep {
    /// Encode the value as text, holding the value for reading only.
    Encode,
    /// Write the text over the file from its first byte, holding the file.
    Write,
}

/// What follows a step of a save.
#[derive(Clone, Copy, Debug, PartialEq, Eq, Structural)]
pub enum SaveNext {
    /// Perform this step next.
    Next(SaveStep),
    /// The save is complete.
    Saved,
    /// The save failed.
    Failed(StoreError),
}

/// What follows a step of a save that succeeded or did not.
pub open spec fn save_next(step: SaveStep, succeeded: bool) -> SaveNext {
    match step {
        SaveStep::Encode => if succeeded {
            SaveNext::Next(SaveStep::Write)
        } else {
            SaveNext::Failed(StoreError::SerializationFailed)
        },
        SaveStep::Write => if succeeded {
            SaveNext::Saved
        } else {
            SaveNext::Failed(StoreError::WriteFailed)
        },
    }
}

/// The value of a store, as it is held in memory.
#[derive(Debug)]
pub struct AsyncDataHandler<T> {
    pub data: T,
}

impl<T: Default + WellFormed> AsyncDataHandler<T> {
    /// What a store holds after construction. A file that could not be had
    /// fails the construction with the failure given. Otherwise construction
    /// succeeds: with the value read if it keeps the type's invariant, and
    /// else with the type's default value, as where the file could not be
    /// read or its text is no value.
    pub fn new(file: Result<(), StoreError>, loaded: Loaded<T>) -> (r: Result<
        AsyncDataHandler<T>,
        StoreError,
    >)
        ensures
            match file {
                Err(e) => r is Err && r->Err_0 == e,
                Ok(_) => r is Ok && match loaded {
                    Loaded::Parsed(value) if value.wf() => r->Ok_0.data == value,
                    _ => call_ensures(T::default, (), r->Ok_0.data),
                },
            },
    {
        match file {
            Err(e) => Err(e),
            Ok(_) => match loaded {
                Loaded::Parsed(value) => {
                    if value.is_well_formed() {
                        Ok(AsyncDataHandler { data: value })
                    } else {
                        Ok(AsyncDataHandler { data: T::default() })
                    }
                },
                _ => Ok(AsyncDataHandler { data: T::default() }),
            },
        }
    }
}

impl<T> AsyncDataHandler<T> {
    /// The value, for reading.
    pub fn get(&self) -> (r: &T)
        ensures
            *r == self.data,
    {
        &self.data
    }

    /// The value, for changing: what the caller leaves behind the reference
    /// is what the store holds afterwards.
    pub fn get_mut(&mut self) -> (r: &mut T)
        ensures
            *r == old(self).data,
            final(self).data == *final(r),
    {
        &mut self.data
    }

    /// Decides what follows a step of a save, given whether the step
    /// succeeded. A save starts at `SaveStep::Encode`.
    pub fn save(step: SaveStep, succeeded: bool) -> (r: SaveNext)
        ensures
            r == save_next(step, succeeded),
    {
        match step {
            SaveStep::Encode => {
                if succeeded {
                    SaveNext::Next(SaveStep::Write)
                } else {
                    SaveNext::Failed(StoreError::SerializationFailed)
                }
            },
            SaveStep::Write => {
                if succeeded {
                    SaveNext::Saved
                } else {
                    SaveNext::Failed(StoreError::WriteFailed)
                }
            },
        }
    }
}

} // verus!
