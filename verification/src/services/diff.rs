//! Diff options and errors.

use vstd::prelude::*;

use crate::text::concat;
use crate::types::Forge;

verus! {

/// A set of forges (an ordered set of three possible members).
#[derive(Debug, Clone, Copy, PartialEq, Eq, Structural)]
pub struct ForgeSet {
    pub github: bool,
    pub codeberg: bool,
    pub gitlab: bool,
}

/// Whether the set holds `f`.
pub open spec fn forge_in(s: ForgeSet, f: Forge) -> bool {
    match f {
        Forge::GitHub => s.github,
        Forge::Codeberg => s.codeberg,
        Forge::GitLab => s.gitlab,
    }
}

impl ForgeSet {
    /// The empty set.
    pub fn new() -> (s: ForgeSet)
        ensures
            forall|f: Forge| !forge_in(s, f),
    {
        ForgeSet { github: false, codeberg: false, gitlab: false }
    }

    /// Add `f`.
    pub fn insert(&mut self, f: Forge)
        ensures
            forall|g: Forge| forge_in(*final(self), g) == (forge_in(*old(self), g) || g == f),
    {
        match f {
            Forge::GitHub => self.github = true,
            Forge::Codeberg => self.codeberg = true,
            Forge::GitLab => self.gitlab = true,
        }
    }

    /// Whether the set holds `f`.
    pub fn contains(&self, f: Forge) -> (b: bool)
        ensures
            b == forge_in(*self, f),
    {
        match f {
            Forge::GitHub => self.github,
            Forge::Codeberg => self.codeberg,
            Forge::GitLab => self.gitlab,
        }
    }

    /// Whether the set is empty (which means "all forges").
    pub fn is_empty(&self) -> (b: bool)
        ensures
            b == forall|f: Forge| !forge_in(*self, f),
    {
        proof {
            assert(forge_in(*self, Forge::GitHub) == self.github);
            assert(forge_in(*self, Forge::Codeberg) == self.codeberg);
            assert(forge_in(*self, Forge::GitLab) == self.gitlab);
        }
        !self.github && !self.codeberg && !self.gitlab
    }
}

/// Errors of a diff.
#[derive(Debug, Clone)]
pub enum DiffError {
    /// A forge operation failed (its message).
    ForgeError(String),
    /// A storage operation failed (its message).
    StorageError(String),
    /// Organization not found in local storage.
    OrgNotConfigured { org: String },
    /// No forge adapters configured.
    NoForgesConfigured,
}

impl DiffError {
    /// The human-readable description of the error.
    pub fn message(&self) -> (s: String)
        ensures
            s@ == match self {
                DiffError::ForgeError(m) => "Forge operation failed: "@ + m@,
                DiffError::StorageError(m) => "Storage operation failed: "@ + m@,
                DiffError::OrgNotConfigured { org } => "Organization '"@ + org@
                    + "' not found in local configuration"@,
                DiffError::NoForgesConfigured => "No forge adapters configured"@,
            },
    {
        match self {
            DiffError::ForgeError(m) => concat("Forge operation failed: ", m.as_str()),
            DiffError::StorageError(m) => concat("Storage operation failed: ", m.as_str()),
            DiffError::OrgNotConfigured { org } => {
                let a = concat("Organization '", org.as_str());
                concat(a.as_str(), "' not found in local configuration")
            },
            DiffError::NoForgesConfigured => "No forge adapters configured".to_owned(),
        }
    }
}

/// Options for a diff.
#[derive(Debug, Clone, Copy)]
pub struct DiffOptions {
    /// Use cached/synced state instead of querying forges.
    pub use_cached: bool,
    /// Only diff against these forges (empty means all).
    pub forges: ForgeSet,
    /// Include repos that exist on forges but not in config.
    pub include_untracked: bool,
}

impl DiffOptions {
    /// Options for a fresh diff (query forges).
    pub fn fresh() -> (o: DiffOptions)
        ensures
            !o.use_cached,
            forall|f: Forge| !forge_in(o.forges, f),
            o.include_untracked,
    {
        DiffOptions { use_cached: false, forges: ForgeSet::new(), include_untracked: true }
    }

    /// Options using cached state.
    pub fn cached() -> (o: DiffOptions)
        ensures
            o.use_cached,
            forall|f: Forge| !forge_in(o.forges, f),
            o.include_untracked,
    {
        DiffOptions { use_cached: true, forges: ForgeSet::new(), include_untracked: true }
    }

    /// Limit to `forge` as well.
    pub fn for_forge(self, forge: Forge) -> (o: DiffOptions)
        ensures
            o.use_cached == self.use_cached,
            o.include_untracked == self.include_untracked,
            forall|f: Forge| forge_in(o.forges, f) == (forge_in(self.forges, f) || f == forge),
    {
        let mut o = self;
        o.forges.insert(forge);
        o
    }

    /// Exclude untracked repos.
    pub fn tracked_only(self) -> (o: DiffOptions)
        ensures
            o.use_cached == self.use_cached,
            o.forges == self.forges,
            !o.include_untracked,
    {
        let mut o = self;
        o.include_untracked = false;
        o
    }
}

} // verus!
