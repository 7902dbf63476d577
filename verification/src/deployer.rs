//! Where a stack is deployed from.

use crate::text::concat3;
use vstd::prelude::*;

verus! {

/// Deploys a composed stack, either fully or as a patch made by the watcher.
#[derive(Debug, PartialEq)]
pub struct StackDeployer {
    pub watcher_patch: bool,
}

/// The directory, below the build state, that holds the composed
/// environment: one of its own for the watcher's patches.
pub open spec fn environment_dir(watcher_patch: bool) -> Seq<char> {
    if watcher_patch {
        "watcher_iac_environment"@
    } else {
        "iac_environment"@
    }
}

impl StackDeployer {
    pub fn new(watcher_patch: bool) -> (deployer: StackDeployer)
        ensures
            deployer.watcher_patch == watcher_patch,
    {
        StackDeployer { watcher_patch }
    }

    /// The path of the composed environment below `buildstate_path`.
    pub fn iac_environment_path(&self, buildstate_path: &str) -> (path: String)
        ensures
            path@ == buildstate_path@ + "/"@ + environment_dir(self.watcher_patch),
    {
        if self.watcher_patch {
            concat3(buildstate_path, "/", "watcher_iac_environment")
        } else {
            concat3(buildstate_path, "/", "iac_environment")
        }
    }
}

} // verus!
