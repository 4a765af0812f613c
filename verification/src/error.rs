//! The ways in which an operation on the catalog can fail.
use vstd::prelude::*;

verus! {

/// Why an operation on the catalog failed. Every failure is handed back to
/// the caller; none aborts.
#[derive(Clone, Copy, Debug, PartialEq, Eq, Structural)]
pub enum Error {
    /// A storage or backup of that name is already in the collection.
    NameConflict,
    /// No storage, backup or device of that name is in the collection.
    NotFound,
    /// The storage still has sub-directories.
    DependencyError,
    /// The parent of a sub-directory, the storage of a backup target or the
    /// device of a backup is not in the loaded collection.
    UnresolvedReference,
    /// No storage contains the path.
    PathNotCovered,
    /// The storage exists but is not bound on the device.
    Unbound,
    /// The storage is already bound on the device.
    AlreadyBound,
    /// The chain of parents of a sub-directory is longer than the catalog, so
    /// it runs in a circle.
    ParentCycle,
    /// The home directory of the user is not known.
    NoHomeDirectory,
    /// A backup is filed under a name that is not its own.
    NameMismatch,
    /// A name that the machine reports is not valid UTF-8.
    InvalidText,
    /// A device was given no name.
    EmptyName,
}

} // verus!
