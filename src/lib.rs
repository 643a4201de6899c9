//! Layered-instance filesystem core of a container-based package build manager.
//!
//! Every decision of the core is made here over plain values: the paths of an
//! instance's layers, the classification of the upper layer's entries into change
//! records, the filesystem operations that a commit or a rollback performs, the
//! reading of the kernel's mount table and the lifecycle of an instance.  The
//! program around the library performs the system calls and hands the results in.

pub mod path;
pub mod error;
pub mod diff;
pub mod probe;
pub mod overlay;
pub mod manager;
pub mod lifecycle;
pub mod registry;
pub mod workspace;
pub mod laws;
