//! Finding the repository: a local directory is used where it is, anything else is
//! cloned with git into a scratch directory.

use crate::errors::DotstrapError;
use crate::infrastructure::command::{arg_texts, CommandExecutor};
use crate::text::{join_path, spec_join};
use vstd::prelude::*;

verus! {

/// A resolved repository: the directory that holds its contents.
#[derive(Debug)]
pub struct RepoHandle {
    pub path: String,
}

impl RepoHandle {
    /// The directory that holds the repository's contents.
    pub fn path(&self) -> (r: &str)
        ensures
            r@ == self.path@,
    {
        self.path.as_str()
    }
}

/// Where a clone goes inside the scratch directory.
pub open spec fn clone_target(scratch: Seq<char>) -> Seq<char> {
    spec_join(scratch, "repo"@)
}

/// The arguments with which git clones `source` into `target`, one commit deep.
pub open spec fn spec_clone_args(source: Seq<char>, target: Seq<char>) -> Seq<Seq<char>> {
    seq!["clone"@, "--depth"@, "1"@, source, target]
}

/// The arguments handed to git for a clone of `source` into `target`.
pub fn clone_args<'a>(source: &'a str, target: &'a str) -> (args: Vec<&'a str>)
    ensures
        arg_texts(args@) == spec_clone_args(source@, target@),
{
    let args: Vec<&str> = vec!["clone", "--depth", "1", source, target];
    assert(arg_texts(args@) =~= spec_clone_args(source@, target@));
    args
}

/// What the answer to a clone means: where git succeeded the repository stands at
/// `target`, and a failure is passed on as it is.
pub fn clone_result(outcome: Result<(), DotstrapError>, target: String) -> (r: Result<
    RepoHandle,
    DotstrapError,
>)
    ensures
        match outcome {
            Ok(_) => r matches Ok(handle) && handle.path@ == target@,
            Err(error) => r == Err::<RepoHandle, DotstrapError>(error),
        },
{
    match outcome {
        Ok(()) => Ok(RepoHandle { path: target }),
        Err(error) => Err(error),
    }
}

/// Clones `source` into the scratch directory, one commit deep.
pub fn clone_remote<E: CommandExecutor>(source: &str, scratch: &str, executor: &mut E) -> (r:
    Result<RepoHandle, DotstrapError>)
    ensures
        r matches Ok(handle) ==> handle.path@ == clone_target(scratch@),
{
    let target = join_path(scratch, "repo");
    let outcome = {
        let args = clone_args(source, target.as_str());
        executor.run("git", args.as_slice())
    };
    clone_result(outcome, target)
}

/// Resolves the repository that `source` names. `local` is the canonical path of
/// `source` where it exists on this machine: then that is the repository and the
/// executor is left alone. Otherwise `source` is cloned into `scratch`.
pub fn resolve_repository<E: CommandExecutor>(
    source: &str,
    local: Option<String>,
    scratch: &str,
    executor: &mut E,
) -> (r: Result<RepoHandle, DotstrapError>)
    ensures
        match local {
            Some(path) => r matches Ok(handle) && handle.path@ == path@ && *final(executor)
                == *old(executor),
            None => r matches Ok(handle) ==> handle.path@ == clone_target(scratch@),
        },
{
    match local {
        Some(path) => Ok(RepoHandle { path }),
        None => clone_remote(source, scratch, executor),
    }
}

} // verus!
