//! The error kinds of the library.

use vstd::prelude::*;

verus! {

/// Why a transition of a single task was refused.
#[derive(Clone, Copy, Debug, PartialEq, Eq, Structural)]
pub enum TaskError {
    /// The task's current status does not allow the transition.
    InvalidState,
    /// The reported progress lies above one hundred percent.
    ProgressOutOfRange,
}

/// Why the repository refused an operation.
#[derive(Clone, Copy, Debug, PartialEq, Eq, Structural)]
pub enum RepositoryError {
    /// No task with the given id is stored.
    NotFound,
}

/// What the download service reports to its caller.
#[derive(Clone, Copy, Debug, PartialEq, Eq, Structural)]
pub enum DownloadError {
    /// The operation named an id that the repository does not hold.
    TaskNotFound,
    /// The task's status does not allow the operation.
    InvalidState,
    /// The reported progress lies above one hundred percent.
    ProgressOutOfRange,
    /// The command line held no program name.
    EmptyCommand,
    /// The downloader could not be started.
    SpawnFailure,
    /// The child process ended with the given exit code.
    ExitFailure(i32),
}

impl DownloadError {
    /// The service-level error that stands for a refused task transition.
    pub open spec fn of_task_error(e: TaskError) -> DownloadError {
        match e {
            TaskError::InvalidState => DownloadError::InvalidState,
            TaskError::ProgressOutOfRange => DownloadError::ProgressOutOfRange,
        }
    }

    /// Maps a refused task transition to the service-level error.
    pub fn from_task_error(e: TaskError) -> (r: DownloadError)
        ensures
            r == Self::of_task_error(e),
    {
        match e {
            TaskError::InvalidState => DownloadError::InvalidState,
            TaskError::ProgressOutOfRange => DownloadError::ProgressOutOfRange,
        }
    }

    /// Maps a repository error to the service-level error.
    pub fn from_repository_error(e: RepositoryError) -> (r: DownloadError)
        ensures
            r == DownloadError::TaskNotFound,
    {
        match e {
            RepositoryError::NotFound => DownloadError::TaskNotFound,
        }
    }
}

} // verus!
