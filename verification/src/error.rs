//! The ways in which an operation of this crate can fail.

use vstd::prelude::*;

verus! {

/// A failure, handed back to the caller as a value. The crate never retries
/// and never recovers by itself.
#[derive(Debug, PartialEq, Eq)]
pub enum PicoError {
    /// No repository root encloses the current directory. Holds the message
    /// of the discovery that failed.
    DiscoveryFailed(String),
    /// A repository root was found, and the store file is not there yet.
    /// Holds the path at which it would be.
    NotInitialized(String),
    /// The store file could not be read or written. Holds the message of
    /// the operating system.
    Io(String),
    /// The store file is there and does not hold a project.
    CorruptData,
    /// No user of the project has this id.
    UnknownUser(u64),
    /// No task of the project has this id.
    UnknownTask(u64),
}

} // verus!
