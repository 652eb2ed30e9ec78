//! Where the project's store file is, and what loading and saving do with
//! what was found there.
//!
//! Looking for the repository root and touching the file are the caller's
//! part. It reports what it found as plain values; the decisions are here.

use vstd::prelude::*;
use crate::error::PicoError;
use crate::project::Project;
use crate::record::ProjectRecord;

verus! {

/// The outcome of looking for the store file from the current directory.
#[derive(Debug, PartialEq, Eq)]
pub enum PicoPath {
    /// No repository root encloses the current directory. Holds the message
    /// of the discovery that failed.
    NotFound(String),
    /// A repository root was found; the store file is not there. Holds the
    /// path at which it belongs.
    FoundNotInit(String),
    /// A repository root was found, and the store file with it. Holds its
    /// path.
    Found(String),
}

/// What reading the store file gave.
#[derive(Debug, PartialEq, Eq)]
pub enum ReadOutcome {
    /// The file could not be read. Holds the message of the operating
    /// system.
    Unreadable(String),
    /// The file was read, and its text is no record.
    Malformed,
    /// The file was read, and its text is this record.
    Parsed(ProjectRecord),
}

/// The name of the store file. It lies directly under the repository root.
pub fn store_file_name() -> (r: &'static str)
    ensures
        r@ == ".pico"@,
{
    ".pico"
}

/// The outcome for a discovery and a look at the disk.
pub open spec fn located(store: Result<String, String>, store_exists: bool) -> PicoPath {
    match store {
        Err(reason) => PicoPath::NotFound(reason),
        Ok(path) => if store_exists {
            PicoPath::Found(path)
        } else {
            PicoPath::FoundNotInit(path)
        },
    }
}

/// Tells the three outcomes apart. `store` is the path at which the store
/// file belongs, or the message of the discovery that found no repository
/// root; `store_exists` says whether a file is at that path, and is not
/// looked at where there is no path.
pub fn check_pico_dir(store: Result<String, String>, store_exists: bool) -> (r: PicoPath)
    ensures
        r == located(store, store_exists),
{
    match store {
        Err(reason) => PicoPath::NotFound(reason),
        Ok(path) => {
            if store_exists {
                PicoPath::Found(path)
            } else {
                PicoPath::FoundNotInit(path)
            }
        },
    }
}

impl PicoPath {
    /// The file to read a project from, or why there is none.
    pub open spec fn spec_load_target(self) -> Result<String, PicoError> {
        match self {
            PicoPath::Found(path) => Ok(path),
            PicoPath::FoundNotInit(path) => Err(PicoError::NotInitialized(path)),
            PicoPath::NotFound(reason) => Err(PicoError::DiscoveryFailed(reason)),
        }
    }

    /// The file to write a project to, or why there is none.
    pub open spec fn spec_store_target(self) -> Result<String, PicoError> {
        match self {
            PicoPath::Found(path) => Ok(path),
            PicoPath::FoundNotInit(path) => Ok(path),
            PicoPath::NotFound(reason) => Err(PicoError::DiscoveryFailed(reason)),
        }
    }

    /// The file to read a project from. Loading needs a store file that is
    /// there: without a repository root it fails with `DiscoveryFailed`,
    /// with a root and no store file with `NotInitialized`.
    pub fn load_target(&self) -> (r: Result<String, PicoError>)
        ensures
            r == self.spec_load_target(),
    {
        match self {
            PicoPath::Found(path) => Ok(path.clone()),
            PicoPath::FoundNotInit(path) => Err(PicoError::NotInitialized(path.clone())),
            PicoPath::NotFound(reason) => Err(PicoError::DiscoveryFailed(reason.clone())),
        }
    }

    /// The file to write a project to. Saving needs a repository root only:
    /// the file is created where it is not there. Without a root it fails
    /// with `DiscoveryFailed`.
    pub fn store_target(&self) -> (r: Result<String, PicoError>)
        ensures
            r == self.spec_store_target(),
    {
        match self {
            PicoPath::Found(path) => Ok(path.clone()),
            PicoPath::FoundNotInit(path) => Ok(path.clone()),
            PicoPath::NotFound(reason) => Err(PicoError::DiscoveryFailed(reason.clone())),
        }
    }
}

/// The project that a read of the store file gave. A file that could not be
/// read fails with `Io`; a text that is no record, or a record that is not
/// valid, with `CorruptData`.
pub fn load_project(read: ReadOutcome) -> (r: Result<Project, PicoError>)
    ensures
        match read {
            ReadOutcome::Unreadable(reason) => r == Err::<Project, PicoError>(
                PicoError::Io(reason),
            ),
            ReadOutcome::Malformed => r == Err::<Project, PicoError>(PicoError::CorruptData),
            ReadOutcome::Parsed(record) => match r {
                Ok(p) => p.wf() && record@.to_project() == Some(p@),
                Err(e) => e == PicoError::CorruptData && record@.to_project() is None,
            },
        },
{
    match read {
        ReadOutcome::Unreadable(reason) => Err(PicoError::Io(reason)),
        ReadOutcome::Malformed => Err(PicoError::CorruptData),
        ReadOutcome::Parsed(record) => Project::from_record(record),
    }
}

/// Where to save the project and what to write there: the whole project,
/// in place of whatever the file held. It fails, with `DiscoveryFailed`,
/// exactly where there is no repository root.
pub fn store_project(p: &Project, pico: &PicoPath) -> (r: Result<(String, ProjectRecord), PicoError>)
    requires
        p.wf(),
    ensures
        match r {
            Ok((path, record)) => pico.spec_store_target() == Ok::<String, PicoError>(path)
                && record@ == p@.to_record() && record@.to_project() == Some(p@),
            Err(e) => pico.spec_store_target() == Err::<String, PicoError>(e),
        },
{
    match pico.store_target() {
        Ok(path) => Ok((path, p.to_record())),
        Err(e) => Err(e),
    }
}

} // verus!
