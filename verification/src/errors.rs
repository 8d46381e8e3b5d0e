//! Error taxonomy for establishing the watch.
//!
//! Failing to establish the watch is fatal at startup: the process must not
//! run silently without live reload. The first two variants are detected by
//! this library when validating the target path; the others classify why the
//! OS-level watch could not be established, as reported by the caller that
//! owns the OS notification primitive.

use vstd::prelude::*;

verus! {

#[derive(Clone, Copy, PartialEq, Eq, Structural, Debug)]
pub enum WatchSetupError {
    /// The target path is not absolute: it is empty or does not start with `/`.
    NotAbsolute,
    /// The target path names no file: it ends in `/`.
    MissingFileName,
    /// The target path does not exist on disk.
    NotFound,
    /// Permission to watch the target's directory was denied.
    PermissionDenied,
    /// The OS watch could not be established for another reason.
    Backend,
}

} // verus!
