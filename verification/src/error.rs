//! What a run can report.

use vstd::prelude::*;

use crate::filesystem::{FilesystemError, FilesystemErrorView};
use crate::git::{GitError, GitErrorView};
use crate::mapping::MappingError;

verus! {

/// Why a run ended early.
#[derive(Debug)]
pub enum SyncError {
    /// A destination or a source could not be replaced or linked.
    Filesystem(FilesystemError),
    /// The repository could not be obtained or updated.
    Git(GitError),
    /// The configuration could not be read.
    Mapping(MappingError),
    /// The user's home directory could not be determined.
    HomeDirectoryNotFound,
    /// No repository URL was given, and there is no clone to update.
    NotEnoughArguments,
    /// The declared source, at this path, does not exist in the repository.
    SourceMissing(String),
}

/// A [`SyncError`] with its texts as sequences of characters.
pub enum SyncErrorView {
    Filesystem(FilesystemErrorView),
    Git(GitErrorView),
    Mapping(MappingError),
    HomeDirectoryNotFound,
    NotEnoughArguments,
    SourceMissing(Seq<char>),
}

impl View for SyncError {
    type V = SyncErrorView;

    open spec fn view(&self) -> SyncErrorView {
        match self {
            SyncError::Filesystem(error) => SyncErrorView::Filesystem(error@),
            SyncError::Git(error) => SyncErrorView::Git(error@),
            SyncError::Mapping(error) => SyncErrorView::Mapping(*error),
            SyncError::HomeDirectoryNotFound => SyncErrorView::HomeDirectoryNotFound,
            SyncError::NotEnoughArguments => SyncErrorView::NotEnoughArguments,
            SyncError::SourceMissing(source) => SyncErrorView::SourceMissing(source@),
        }
    }
}

/// The error that a destination or source of the wrong kind stands for.
pub open spec fn invalid_path(path: Seq<char>) -> SyncErrorView {
    SyncErrorView::Filesystem(FilesystemErrorView::InvalidPath(path))
}

/// The error that a failed primitive stands for.
pub open spec fn io_failure(cause: std::io::Error) -> SyncErrorView {
    SyncErrorView::Filesystem(FilesystemErrorView::Io(cause))
}

} // verus!
