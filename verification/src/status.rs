//! The lifecycle states of a download task.

use vstd::prelude::*;

verus! {

/// Where a download task stands in its lifecycle.
#[derive(Clone, Copy, Debug, PartialEq, Eq, Structural)]
pub enum DownloadStatus {
    Pending,
    Downloading,
    Completed,
    Failed,
    Cancelled,
    Paused,
}

impl DownloadStatus {
    /// A terminal status is never left again.
    pub open spec fn is_terminal(self) -> bool {
        self is Completed || self is Failed || self is Cancelled
    }

    /// A running status is one in which the downloader may report progress.
    pub open spec fn is_running(self) -> bool {
        self is Pending || self is Downloading
    }

    /// Tells whether the status is terminal.
    pub fn terminal(&self) -> (r: bool)
        ensures
            r == self.is_terminal(),
    {
        match self {
            DownloadStatus::Completed | DownloadStatus::Failed | DownloadStatus::Cancelled => true,
            _ => false,
        }
    }

    /// Tells whether progress reports are accepted in this status.
    pub fn running(&self) -> (r: bool)
        ensures
            r == self.is_running(),
    {
        match self {
            DownloadStatus::Pending | DownloadStatus::Downloading => true,
            _ => false,
        }
    }
}

} // verus!
