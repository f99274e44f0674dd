//! The failure taxonomy of the download/extraction pipeline.

use vstd::prelude::*;

verus! {

/// Everything that can go wrong across one download-and-extract run.
#[derive(Debug)]
pub enum Error {
    /// The response declared no content length, so progress cannot be
    /// computed.
    SizeUnknown,
    /// The network transfer failed mid-stream; the partial file is left in
    /// place for inspection.
    TransferFailed(String),
    /// A disk write failed.
    WriteFailed(String),
    /// A cancellation was observed at a progress check; the partial file has
    /// been removed.
    DownloadCancelled,
    /// The extraction subprocess exited nonzero; the detail is its captured
    /// standard error, or standard output when that was empty.
    ExtractionFailed(String),
    /// The key was cancelled after the download finished but before
    /// settlement, so no completion may be reported.
    SessionInvalidated,
    /// A cancellation request named a key that is not tracked.
    KeyNotTracked,
    /// A cancellation request named a key whose count is already zero.
    AlreadyZero,
}

} // verus!
