//! The vocabulary between the reconciler and whoever touches the disk:
//! what a look at a path reports, which primitives can be asked for, and how
//! the kind of a path selects the primitive.

use vstd::prelude::*;

verus! {

/// `std::io::Error`, carried through untouched from a failed primitive to the
/// error that the run reports.
#[verifier::external_type_specification]
#[verifier::external_body]
pub struct ExIoError(std::io::Error);

/// What one fresh look at a path reports.
#[derive(Clone, Copy, Debug, PartialEq, Eq, Structural)]
pub struct Probe {
    /// Reading the path as a symbolic link succeeds; true of a broken link too.
    pub is_link: bool,
    /// Following links, something is there.
    pub exists: bool,
    /// Following links, it is a regular file.
    pub is_file: bool,
    /// Following links, it is a directory.
    pub is_dir: bool,
}

/// One filesystem primitive for the caller to carry out.
#[derive(Debug)]
pub enum Operation {
    /// Look at the path and answer with a [`Probe`].
    Inspect(String),
    /// Remove the link entry itself, never what it points at.
    Unlink(String),
    /// Remove a regular file.
    RemoveFile(String),
    /// Remove a directory and everything below it.
    RemoveDirAll(String),
    /// Create a file-type symbolic link at `destination` pointing to `source`.
    LinkFile { source: String, destination: String },
    /// Create a directory-type symbolic link at `destination` pointing to `source`.
    LinkDir { source: String, destination: String },
}

/// An [`Operation`] with its paths as sequences of characters.
pub enum OperationView {
    Inspect(Seq<char>),
    Unlink(Seq<char>),
    RemoveFile(Seq<char>),
    RemoveDirAll(Seq<char>),
    LinkFile { source: Seq<char>, destination: Seq<char> },
    LinkDir { source: Seq<char>, destination: Seq<char> },
}

impl View for Operation {
    type V = OperationView;

    open spec fn view(&self) -> OperationView {
        match self {
            Operation::Inspect(path) => OperationView::Inspect(path@),
            Operation::Unlink(path) => OperationView::Unlink(path@),
            Operation::RemoveFile(path) => OperationView::RemoveFile(path@),
            Operation::RemoveDirAll(path) => OperationView::RemoveDirAll(path@),
            Operation::LinkFile { source, destination } => OperationView::LinkFile {
                source: source@,
                destination: destination@,
            },
            Operation::LinkDir { source, destination } => OperationView::LinkDir {
                source: source@,
                destination: destination@,
            },
        }
    }
}

/// What the caller hands back after carrying out an [`Operation`].
#[derive(Debug)]
pub enum Reply {
    /// The answer to [`Operation::Inspect`].
    Probed(Probe),
    /// How any other operation ended.
    Performed(Result<(), std::io::Error>),
}

/// Why a path could not be replaced or linked.
#[derive(Debug)]
pub enum FilesystemError {
    /// The path is neither exactly a regular file nor exactly a directory.
    InvalidPath(String),
    /// A primitive failed for a reason of the operating system.
    Io(std::io::Error),
}

/// A [`FilesystemError`] with its path as a sequence of characters.
pub enum FilesystemErrorView {
    InvalidPath(Seq<char>),
    Io(std::io::Error),
}

impl View for FilesystemError {
    type V = FilesystemErrorView;

    open spec fn view(&self) -> FilesystemErrorView {
        match self {
            FilesystemError::InvalidPath(path) => FilesystemErrorView::InvalidPath(path@),
            FilesystemError::Io(cause) => FilesystemErrorView::Io(*cause),
        }
    }
}

/// The primitive that removes what occupies `path`, chosen by its kind:
/// a regular file is removed directly, a directory with all below it, and
/// anything that is not exactly one of the two is refused.
pub open spec fn removal(path: Seq<char>, probe: Probe) -> Result<
    OperationView,
    FilesystemErrorView,
> {
    if probe.is_file && !probe.is_dir {
        Ok(OperationView::RemoveFile(path))
    } else if probe.is_dir && !probe.is_file {
        Ok(OperationView::RemoveDirAll(path))
    } else {
        Err(FilesystemErrorView::InvalidPath(path))
    }
}

/// The primitive that links `destination` to `source`, chosen by the kind of
/// `source`: a file-type link for a regular file, a directory-type link for
/// a directory, and a refusal for anything that is not exactly one of the two.
pub open spec fn linking(source: Seq<char>, destination: Seq<char>, probe: Probe) -> Result<
    OperationView,
    FilesystemErrorView,
> {
    if probe.is_file && !probe.is_dir {
        Ok(OperationView::LinkFile { source, destination })
    } else if probe.is_dir && !probe.is_file {
        Ok(OperationView::LinkDir { source, destination })
    } else {
        Err(FilesystemErrorView::InvalidPath(source))
    }
}

/// A planned primitive, or the refusal to plan one, by its views.
pub open spec fn planned(r: Result<Operation, FilesystemError>) -> Result<
    OperationView,
    FilesystemErrorView,
> {
    match r {
        Ok(operation) => Ok(operation@),
        Err(error) => Err(error@),
    }
}

/// Plans the removal of the file or directory at `path`, as `probe` found it.
pub fn delete(path: &str, probe: &Probe) -> (r: Result<Operation, FilesystemError>)
    ensures
        planned(r) == removal(path@, *probe),
{
    if probe.is_file && !probe.is_dir {
        Ok(Operation::RemoveFile(path.to_owned()))
    } else if probe.is_dir && !probe.is_file {
        Ok(Operation::RemoveDirAll(path.to_owned()))
    } else {
        Err(FilesystemError::InvalidPath(path.to_owned()))
    }
}

/// Plans the link from `dest` to `src`, of the type that `probe` found `src`
/// to have.
pub fn symlink(src: &str, dest: &str, probe: &Probe) -> (r: Result<Operation, FilesystemError>)
    ensures
        planned(r) == linking(src@, dest@, *probe),
{
    if probe.is_file && !probe.is_dir {
        Ok(Operation::LinkFile { source: src.to_owned(), destination: dest.to_owned() })
    } else if probe.is_dir && !probe.is_file {
        Ok(Operation::LinkDir { source: src.to_owned(), destination: dest.to_owned() })
    } else {
        Err(FilesystemError::InvalidPath(src.to_owned()))
    }
}

/// Plans the removal of the link entry at `link`.
pub fn symlink_delete(link: &str) -> (r: Operation)
    ensures
        r@ == OperationView::Unlink(link@),
{
    Operation::Unlink(link.to_owned())
}

/// Whether the probed path is a symbolic link. This goes by reading the
/// link, not by existence, so a link whose target is gone still counts.
pub fn symlink_exists(probe: &Probe) -> (r: bool)
    ensures
        r == probe.is_link,
{
    probe.is_link
}

} // verus!
