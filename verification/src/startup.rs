//! What a run does before it reconciles anything: where the clone lies,
//! whether it is cloned or updated, and where its configuration is read.

use vstd::prelude::*;
use vstd::utf8::{decode_utf8, valid_utf8};

use crate::error::{SyncError, SyncErrorView};
use crate::git::{verdict, Invocation, InvocationView, Output, Repository};
use crate::mapping::{yaml_mapping, Mapping};
use crate::path::{expand_source, joined};

verus! {

/// `dirs::home_dir`, as text; a home directory whose path is not Unicode
/// counts as none. Trusted for nothing: what comes back depends on the
/// environment, and no claim is made of it.
#[verifier::external_body]
fn home_dir() -> Option<String> {
    dirs::home_dir().and_then(|path| path.into_os_string().into_string().ok())
}

/// The user's home directory and, inside it, the directory of the clone,
/// as [`locate`] places it. A run for which no home directory can be
/// determined ends here.
pub fn locate_home() -> (r: Result<(String, String), SyncError>)
    ensures
        match r {
            Ok((home, directory)) => directory@ == joined(home@, ".dotsync"@),
            Err(error) => error@ == SyncErrorView::HomeDirectoryNotFound,
        },
{
    match home_dir() {
        Some(home) => match locate(Some(home.as_str())) {
            Ok(directory) => Ok((home, directory)),
            Err(error) => Err(error),
        },
        None => Err(SyncError::HomeDirectoryNotFound),
    }
}

/// The directory of the clone, inside the home directory `home`. A run for
/// which no home directory is known ends here.
pub fn locate(home: Option<&str>) -> (r: Result<String, SyncError>)
    ensures
        match home {
            Some(home) => r matches Ok(directory) && directory@ == joined(home@, ".dotsync"@),
            None => r matches Err(error) && error@ == SyncErrorView::HomeDirectoryNotFound,
        },
{
    match home {
        Some(home) => Ok(expand_source(".dotsync", home)),
        None => Err(SyncError::HomeDirectoryNotFound),
    }
}

/// What obtains the repository at `directory`: an update of the clone that
/// exists, whatever `url` is; a clone from `url` where there is none yet;
/// and the end of the run where there is neither clone nor URL.
pub open spec fn provisioned(directory: Seq<char>, exists: bool, url: Option<Seq<char>>) -> Result<
    InvocationView,
    SyncErrorView,
> {
    if exists {
        Ok(
            InvocationView {
                program: "git"@,
                arguments: seq!["pull"@],
                directory: Some(directory),
            },
        )
    } else {
        match url {
            Some(url) => Ok(
                InvocationView {
                    program: "git"@,
                    arguments: seq!["clone"@, url, directory],
                    directory: None,
                },
            ),
            None => Err(SyncErrorView::NotEnoughArguments),
        }
    }
}

/// The invocation that obtains the repository at `directory`, as
/// [`provisioned`] states it.
pub fn provision(directory: &str, exists: bool, url: Option<&str>) -> (r: Result<
    Invocation,
    SyncError,
>)
    ensures
        match provisioned(
            directory@,
            exists,
            match url {
                Some(url) => Some(url@),
                None => None,
            },
        ) {
            Ok(invocation) => r matches Ok(i) && i@ == invocation,
            Err(error) => r matches Err(e) && e@ == error,
        },
{
    if exists {
        Ok(Repository::from(directory).pull_invocation())
    } else {
        match url {
            Some(url) => Ok(Repository::clone_invocation(url, directory)),
            None => Err(SyncError::NotEnoughArguments),
        }
    }
}

/// The repository at `directory`, once the invocation of [`provision`]
/// has ended as `ran` says, or the provider's error.
pub fn obtained(directory: &str, exists: bool, ran: Result<Output, std::io::Error>) -> (r: Result<
    Repository,
    SyncError,
>)
    ensures
        match verdict(ran) {
            Ok(()) => r matches Ok(repository) && repository@ == directory@,
            Err(error) => r matches Err(e) && e@ == SyncErrorView::Git(error),
        },
{
    if exists {
        let repository = Repository::from(directory);
        match repository.pull(ran) {
            Ok(()) => Ok(repository),
            Err(error) => Err(SyncError::Git(error)),
        }
    } else {
        match Repository::clone(directory, ran) {
            Ok(repository) => Ok(repository),
            Err(error) => Err(SyncError::Git(error)),
        }
    }
}

/// Where the configuration of `repository` is read.
pub fn configuration_file(repository: &Repository) -> (r: String)
    ensures
        r@ == joined(repository@, ".dotsyncrc"@),
{
    expand_source(".dotsyncrc", repository.path())
}

/// The mapping that a configuration file with these contents declares, or
/// the error that ends the run.
pub fn configure(contents: Vec<u8>) -> (r: Result<Mapping, SyncError>)
    requires
        valid_utf8(contents@),
    ensures
        match yaml_mapping(decode_utf8(contents@)) {
            Some(declared) => r matches Ok(mapping) && mapping.wf() && mapping@ == declared,
            None => r matches Err(error) && error@ is Mapping,
        },
{
    match Mapping::from_yaml_file(contents) {
        Ok(mapping) => Ok(mapping),
        Err(error) => Err(SyncError::Mapping(error)),
    }
}

} // verus!
