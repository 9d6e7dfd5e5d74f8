//! The repository provider: which `git` invocations obtain or update the
//! local clone, and what their outcome means for the run.

use vstd::prelude::*;
use vstd::utf8::{decode_utf8, valid_utf8};

use crate::encoding::text;

verus! {

/// Why the repository could not be obtained or updated.
#[derive(Debug)]
pub enum GitError {
    /// The tool wrote something that is not UTF-8.
    NonUtf8String,
    /// The process could not be started.
    CreatingProcess(std::io::Error),
    /// The process ran and reported failure; what it wrote to its standard
    /// output and to its standard error, in that order.
    ExitedWithNonZero(String, String),
}

/// A [`GitError`] with its texts as sequences of characters.
pub enum GitErrorView {
    NonUtf8String,
    CreatingProcess(std::io::Error),
    ExitedWithNonZero(Seq<char>, Seq<char>),
}

impl View for GitError {
    type V = GitErrorView;

    open spec fn view(&self) -> GitErrorView {
        match self {
            GitError::NonUtf8String => GitErrorView::NonUtf8String,
            GitError::CreatingProcess(cause) => GitErrorView::CreatingProcess(*cause),
            GitError::ExitedWithNonZero(stdout, stderr) => GitErrorView::ExitedWithNonZero(
                stdout@,
                stderr@,
            ),
        }
    }
}

/// A process for the caller to run to its end.
#[derive(Debug)]
pub struct Invocation {
    pub program: String,
    pub arguments: Vec<String>,
    /// The working directory to run in; the caller's own where there is none.
    pub directory: Option<String>,
}

/// An [`Invocation`] with its texts as sequences of characters.
pub struct InvocationView {
    pub program: Seq<char>,
    pub arguments: Seq<Seq<char>>,
    pub directory: Option<Seq<char>>,
}

impl View for Invocation {
    type V = InvocationView;

    open spec fn view(&self) -> InvocationView {
        InvocationView {
            program: self.program@,
            arguments: Seq::new(self.arguments@.len(), |i: int| self.arguments@[i]@),
            directory: match self.directory {
                Some(directory) => Some(directory@),
                None => None,
            },
        }
    }
}

/// What a process that ran to its end left behind.
#[derive(Debug)]
pub struct Output {
    /// It reported success (exit status zero).
    pub success: bool,
    pub stdout: Vec<u8>,
    pub stderr: Vec<u8>,
}

/// The local clone of the configuration repository. Its view is its path.
#[derive(Debug)]
pub struct Repository {
    path: String,
}

impl View for Repository {
    type V = Seq<char>;

    closed spec fn view(&self) -> Seq<char> {
        self.path@
    }
}

/// The error that a finished but failed process stands for: its two
/// streams as text, or `NonUtf8String` where either is not UTF-8.
pub open spec fn failure(stdout: Seq<u8>, stderr: Seq<u8>) -> GitErrorView {
    if valid_utf8(stdout) && valid_utf8(stderr) {
        GitErrorView::ExitedWithNonZero(decode_utf8(stdout), decode_utf8(stderr))
    } else {
        GitErrorView::NonUtf8String
    }
}

/// What the outcome of an invocation means: nothing to report where the
/// process ran and succeeded, the cause where it could not be started, and
/// its [`failure`] where it ran and failed.
pub open spec fn verdict(ran: Result<Output, std::io::Error>) -> Result<(), GitErrorView> {
    match ran {
        Err(cause) => Err(GitErrorView::CreatingProcess(cause)),
        Ok(output) => if output.success {
            Ok(())
        } else {
            Err(failure(output.stdout@, output.stderr@))
        },
    }
}

/// `git` with `args`, in the caller's working directory.
fn run_git(args: Vec<String>) -> (r: Invocation)
    ensures
        r@.program == "git"@,
        r@.arguments == Seq::new(args@.len(), |i: int| args@[i]@),
        r@.directory is None,
{
    Invocation { program: "git".to_owned(), arguments: args, directory: None }
}

/// `git` with `args`, in the directory `pwd`.
fn run_git_with_pwd(args: Vec<String>, pwd: &str) -> (r: Invocation)
    ensures
        r@.program == "git"@,
        r@.arguments == Seq::new(args@.len(), |i: int| args@[i]@),
        r@.directory == Some(pwd@),
{
    Invocation { program: "git".to_owned(), arguments: args, directory: Some(pwd.to_owned()) }
}

/// Judges a finished invocation as [`verdict`] says.
fn judge(ran: Result<Output, std::io::Error>) -> (r: Result<(), GitError>)
    ensures
        match verdict(ran) {
            Ok(()) => r is Ok,
            Err(error) => r matches Err(e) && e@ == error,
        },
{
    match ran {
        Err(cause) => Err(GitError::CreatingProcess(cause)),
        Ok(output) => {
            if output.success {
                Ok(())
            } else {
                match text(output.stdout) {
                    None => Err(GitError::NonUtf8String),
                    Some(stdout) => match text(output.stderr) {
                        None => Err(GitError::NonUtf8String),
                        Some(stderr) => Err(GitError::ExitedWithNonZero(stdout, stderr)),
                    },
                }
            }
        },
    }
}

impl Repository {
    /// The clone that lies at `path`.
    pub fn from(path: &str) -> (r: Repository)
        ensures
            r@ == path@,
    {
        Repository { path: path.to_owned() }
    }

    /// Where the clone lies.
    pub fn path(&self) -> (r: &str)
        ensures
            r@ == self@,
    {
        self.path.as_str()
    }

    /// The invocation that clones `source` into `destination`:
    /// `git clone <source> <destination>`.
    pub fn clone_invocation(source: &str, destination: &str) -> (r: Invocation)
        ensures
            r@ == (InvocationView {
                program: "git"@,
                arguments: seq!["clone"@, source@, destination@],
                directory: None,
            }),
    {
        let mut args: Vec<String> = Vec::new();
        args.push("clone".to_owned());
        args.push(source.to_owned());
        args.push(destination.to_owned());
        let r = run_git(args);
        assert(r@.arguments =~= seq!["clone"@, source@, destination@]);
        r
    }

    /// The clone at `destination`, once the invocation of
    /// [`Repository::clone_invocation`] has ended as `ran` says: the
    /// repository where it succeeded, else the error of [`verdict`].
    pub fn clone(destination: &str, ran: Result<Output, std::io::Error>) -> (r: Result<
        Repository,
        GitError,
    >)
        ensures
            match verdict(ran) {
                Ok(()) => r matches Ok(repository) && repository@ == destination@,
                Err(error) => r matches Err(e) && e@ == error,
            },
    {
        match judge(ran) {
            Ok(()) => Ok(Repository::from(destination)),
            Err(error) => Err(error),
        }
    }

    /// The invocation that updates this clone: `git pull`, run inside it.
    pub fn pull_invocation(&self) -> (r: Invocation)
        ensures
            r@ == (InvocationView {
                program: "git"@,
                arguments: seq!["pull"@],
                directory: Some(self@),
            }),
    {
        let mut args: Vec<String> = Vec::new();
        args.push("pull".to_owned());
        let r = run_git_with_pwd(args, self.path.as_str());
        assert(r@.arguments =~= seq!["pull"@]);
        r
    }

    /// Whether the update went through, once the invocation of
    /// [`Repository::pull_invocation`] has ended as `ran` says.
    pub fn pull(&self, ran: Result<Output, std::io::Error>) -> (r: Result<(), GitError>)
        ensures
            match verdict(ran) {
                Ok(()) => r is Ok,
                Err(error) => r matches Err(e) && e@ == error,
            },
    {
        judge(ran)
    }
}

} // verus!
