//! Updating the lockfile, and looking up the script that a run asks for.

use vstd::prelude::*;
use crate::npm::RegistryPackage;
use crate::package::{PackageMetadata, PackageSpecifier};
use crate::resolve::{run, Graph, ResolveError};

verus! {

/// Why the lockfile was not updated.
#[derive(Debug, Clone, PartialEq, Eq)]
pub enum UpdateError {
    /// The lockfile is to stay as it is.
    Immutable,
    /// The resolution failed.
    Resolve(ResolveError),
}

/// Resolves the `pending` requirements anew for a lockfile: into `graph`,
/// which starts out empty, from what `registry` tells. The requirements that
/// come back wait for the registry, as with [`Graph::append`]. Where the
/// lockfile is to stay as it is nothing is resolved.
pub fn cmd_update(
    graph: &mut Graph,
    pending: Vec<PackageSpecifier>,
    registry: &Vec<RegistryPackage>,
    immutable: bool,
) -> (r: Result<Vec<PackageSpecifier>, UpdateError>)
    ensures
        immutable ==> (r matches Err(UpdateError::Immutable)) && final(graph)@ == old(graph)@,
        !immutable ==> (match run(
            old(graph)@,
            pending.deep_view(),
            Seq::empty(),
            registry.deep_view(),
        ) {
            Ok(end) => r matches Ok(waiting) && waiting.deep_view() == end.waiting
                && final(graph)@ == end.relations,
            Err(e) => r matches Err(UpdateError::Resolve(error)) && error@ == e && final(graph)@
                == old(graph)@,
        }),
        crate::resolve::satisfied(old(graph)@) ==> crate::resolve::satisfied(final(graph)@),
{
    if immutable {
        return Err(UpdateError::Immutable);
    }
    match graph.append(pending, registry, false) {
        Ok(waiting) => Ok(waiting),
        Err(e) => Err(UpdateError::Resolve(e)),
    }
}

/// Why a script was not run.
#[derive(Debug, Clone, PartialEq, Eq)]
pub enum RunError {
    /// The manifest declares no script of this name.
    NotDefined(String),
}

/// The command of the script `name` of the manifest.
pub fn cmd_run(package: &PackageMetadata, name: &str) -> (r: Result<String, RunError>)
    ensures
        match package@.script(name@) {
            Some(command) => r matches Ok(found) && found@ == command,
            None => r matches Err(RunError::NotDefined(missing)) && missing@ == name@,
        },
{
    match package.script(name) {
        Some(command) => Ok(command),
        None => Err(RunError::NotDefined(String::from_str(name))),
    }
}

} // verus!
