//! Storage of an organization's repos.

use vstd::prelude::*;

use super::paths::HyperforgePaths;
use crate::types::repo::forge_in;
use crate::types::Forge;

verus! {

/// Storage operations for a specific organization's repos.
#[derive(Debug, Clone)]
pub struct OrgStorage {
    paths: HyperforgePaths,
    org_name: String,
}

/// The forges of an optional list, as a set (none when absent).
pub open spec fn forge_set(l: Option<&Vec<Forge>>) -> Set<Forge> {
    match l {
        Some(v) => v@.to_set(),
        None => Set::empty(),
    }
}

fn listed(l: Option<&Vec<Forge>>, f: Forge) -> (b: bool)
    ensures
        b == forge_set(l).contains(f),
{
    match l {
        Some(v) => forge_in(v, f),
        None => false,
    }
}

impl OrgStorage {
    /// The paths configuration.
    pub closed spec fn paths_view(&self) -> HyperforgePaths {
        self.paths
    }

    /// The organization's name.
    pub closed spec fn org_view(&self) -> Seq<char> {
        self.org_name@
    }

    /// Storage for `org_name` under `paths`.
    pub fn new(paths: HyperforgePaths, org_name: String) -> (s: OrgStorage)
        ensures
            s.paths_view() == paths,
            s.org_view() == org_name@,
    {
        OrgStorage { paths, org_name }
    }

    /// Whether a repo needs a sync: the set of forges it should be on
    /// (`desired`, none when unset) differs from the set of forges it
    /// was last synced to (`synced`, the keys of its synced state).
    pub fn needs_sync(&self, desired: Option<&Vec<Forge>>, synced: Option<&Vec<Forge>>) -> (b: bool)
        ensures
            b == (forge_set(desired) != forge_set(synced)),
    {
        let g = listed(desired, Forge::GitHub) != listed(synced, Forge::GitHub);
        let c = listed(desired, Forge::Codeberg) != listed(synced, Forge::Codeberg);
        let l = listed(desired, Forge::GitLab) != listed(synced, Forge::GitLab);
        proof {
            if !(g || c || l) {
                assert forall|f: Forge| forge_set(desired).contains(f) == forge_set(synced).contains(f) by {
                    match f {
                        Forge::GitHub => {},
                        Forge::Codeberg => {},
                        Forge::GitLab => {},
                    }
                }
                assert(forge_set(desired) =~= forge_set(synced));
            }
        }
        g || c || l
    }

    /// The paths configuration.
    pub fn paths(&self) -> (p: &HyperforgePaths)
        ensures
            *p == self.paths_view(),
    {
        &self.paths
    }
}

} // verus!
