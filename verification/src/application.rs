//! What a run reports, and the last stage of a run.

use crate::config::{BrewSpec, Manifest};
use crate::errors::DotstrapError;
use crate::infrastructure::command::{string_texts, CommandExecutor};
use crate::services::brew::{full_plan, install_brew, spec_is_empty};
use vstd::prelude::*;

verus! {

/// Summary of a run.
#[derive(Debug, PartialEq, Eq)]
pub struct ExecutionReport {
    /// The destinations of the manifest's templates, relative to the home directory.
    pub rendered: Vec<String>,
    /// The destinations under the home directory.
    pub linked: Vec<String>,
    /// The Homebrew commands run, or planned in a dry run.
    pub brew_commands: Vec<String>,
    /// Whether the run was a dry run.
    pub dry_run: bool,
}

impl Default for ExecutionReport {
    fn default() -> (r: Self)
        ensures
            r.rendered@.len() == 0,
            r.linked@.len() == 0,
            r.brew_commands@.len() == 0,
            !r.dry_run,
    {
        ExecutionReport {
            rendered: Vec::new(),
            linked: Vec::new(),
            brew_commands: Vec::new(),
            dry_run: false,
        }
    }
}

/// The destinations that a manifest declares, in order.
pub open spec fn declared_destinations(manifest: &Manifest) -> Seq<Seq<char>> {
    Seq::new(manifest.templates@.len(), |i: int| manifest.templates@[i].destination@)
}

/// The destinations that a manifest declares, in order.
pub fn rendered_destinations(manifest: &Manifest) -> (r: Vec<String>)
    ensures
        string_texts(r@) == declared_destinations(manifest),
{
    let mut out: Vec<String> = Vec::new();
    let mut i: usize = 0;
    while i < manifest.templates.len()
        invariant
            i <= manifest.templates.len(),
            out@.len() == i,
            forall|j: int| 0 <= j < i ==> (#[trigger] out@[j])@ == manifest.templates@[j].destination@,
        decreases manifest.templates.len() - i,
    {
        out.push(manifest.templates[i].destination.clone());
        i += 1;
    }
    assert(string_texts(out@) =~= declared_destinations(manifest));
    out
}

/// The package stage of a run: nothing where packages are skipped or no
/// package list was found, the installation otherwise.
pub fn install_packages<E: CommandExecutor>(
    skip_brew: bool,
    spec: Option<BrewSpec>,
    executor: &mut E,
    dry_run: bool,
) -> (r: Result<Vec<String>, DotstrapError>)
    ensures
        skip_brew || spec is None ==> (r matches Ok(log) && log@.len() == 0) && *final(executor)
            == *old(executor),
        !skip_brew && spec is Some && !spec_is_empty(&spec->0) ==> match r {
            Ok(log) => string_texts(log@) == full_plan(&spec->0),
            Err(e) => dry_run ==> e == DotstrapError::BrewUnavailable,
        },
        !skip_brew && spec is Some && spec_is_empty(&spec->0) ==> (r matches Ok(log) && log@.len()
            == 0) && *final(executor) == *old(executor),
{
    if skip_brew {
        return Ok(Vec::new());
    }
    match spec {
        Some(spec) => install_brew(&spec, executor, dry_run),
        None => Ok(Vec::new()),
    }
}

/// Puts the report of a finished run together.
pub fn build_report(
    manifest: &Manifest,
    linked: Vec<String>,
    brew_commands: Vec<String>,
    dry_run: bool,
) -> (r: ExecutionReport)
    ensures
        string_texts(r.rendered@) == declared_destinations(manifest),
        r.linked == linked,
        r.brew_commands == brew_commands,
        r.dry_run == dry_run,
{
    ExecutionReport { rendered: rendered_destinations(manifest), linked, brew_commands, dry_run }
}

} // verus!
