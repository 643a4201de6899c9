//! The kinds of failure that the core reports.

use vstd::prelude::*;

verus! {

/// A failure of the layered-instance core.
#[derive(Clone, Copy, Debug, PartialEq, Eq, Structural)]
pub enum LayerError {
    /// The workspace marker is missing.
    NotAWorkspace,
    /// No instance of that name exists.
    UnknownInstance,
    /// An instance of that name exists already.
    InstanceExists,
    /// An instance name is empty, holds a path separator, or is `.` or `..`.
    InvalidName,
    /// The instance is mounted where it must not be.
    AlreadyMounted,
    /// The instance is not mounted where it must be.
    NotMounted,
    /// The container runs, or the base layer is in use.
    Busy,
    /// The kernel refused a mount.
    MountRejected,
    /// The kernel refused an unmount.
    UnmountRejected,
    /// A filesystem operation failed.
    IoError,
    /// A mount table, an extended attribute or a redirect could not be read, or
    /// a path lies outside the layer it should lie in.
    ParseError,
    /// A change record failed to apply; what was applied before it stays.
    CommitAborted,
}

} // verus!
