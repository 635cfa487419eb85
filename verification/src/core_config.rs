//! Workspace subset configuration data.

use vstd::prelude::*;

verus! {

/// A named subset of workspace packages: the root members from which the
/// subset is computed.
#[derive(Clone, Debug, PartialEq, Eq)]
pub struct SubsetConfig {
    /// The root members in this subset.
    pub root_members: Vec<String>,
}

/// Core configuration for workspace tooling: the workspace's named
/// subsets, each under its own name. Well-formed when no name repeats
/// (see [`subsets_wf`]).
#[derive(Clone, Debug, PartialEq, Eq)]
pub struct XCoreConfig {
    /// Subsets of this workspace, as name/subset pairs.
    pub subsets: Vec<(String, SubsetConfig)>,
}

/// Subset names are pairwise distinct.
pub open spec fn subsets_wf(s: Seq<(String, SubsetConfig)>) -> bool {
    forall|i: int, j: int| 0 <= i < j < s.len() ==> (#[trigger] s[i]).0@ != (#[trigger] s[j]).0@
}

} // verus!
