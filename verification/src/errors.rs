//! Error taxonomy of the installer. Every error is fatal to the run.

use vstd::prelude::*;

verus! {

/// Why a transfer of a remote resource failed.
#[derive(Clone, Copy, Debug, PartialEq, Eq, Structural)]
pub enum FetchError {
    /// The remote host could not be reached.
    Unreachable,
    /// The server answered with a status outside 200..=299.
    BadStatus,
    /// The server did not declare the size of the resource.
    ContentLengthMissing,
    /// The stream broke before the transfer was over.
    StreamInterrupted,
    /// A received chunk could not be written to the local file.
    LocalWriteFailed,
    /// The local file name is already taken.
    DestinationExists,
}

/// Why placing a downloaded artifact failed.
#[derive(Clone, Copy, Debug, PartialEq, Eq, Structural)]
pub enum InstallError {
    /// An archive entry could not be written, or a directory not created.
    ExtractionFailed,
    /// An archive entry resolves outside the destination directory.
    PathTraversal,
    /// The single artifact could not be copied to its destination.
    CopyFailed,
    /// A stale artifact or the temporary download could not be deleted.
    CleanupFailed,
}

/// Why the final exchange of the platform binaries failed.
#[derive(Clone, Copy, Debug, PartialEq, Eq, Structural)]
pub enum SwapError {
    /// One of the two renames failed.
    RenameFailed,
    /// The file in the way of the retired binary could not be deleted.
    DestinationBusy,
}

/// Why a run of the pipeline stopped.
#[derive(Clone, Copy, Debug, PartialEq, Eq, Structural)]
pub enum PipelineError {
    /// The component at this position needs a directory that no earlier
    /// component creates.
    OrderViolation(usize),
    /// Fetching the component at this position failed.
    Fetch(usize, FetchError),
    /// Installing the component at this position failed.
    Install(usize, InstallError),
    /// The binary swap failed.
    Swap(SwapError),
    /// The driver answered with an event that the pending request does not
    /// admit.
    UnexpectedEvent,
}

} // verus!
