//! Organization settings: owner, SSH key, origin forge and forge set.

use vstd::prelude::*;

use super::forge::{Forge, ForgesConfig};
pub use super::Visibility;
use crate::text::concat;

verus! {

/// An organization: who owns its repos and where they live.
#[derive(Debug, Clone)]
pub struct Org {
    pub name: String,
    pub owner: String,
    pub ssh_key: String,
    pub origin: Forge,
    /// Forges configuration - supports both legacy array format and new object format
    pub forges: ForgesConfig,
    pub default_visibility: Visibility,
}

/// `git@<host>:<owner>/<repo>.git`.
pub open spec fn scp_url(host: Seq<char>, owner: Seq<char>, repo: Seq<char>) -> Seq<char> {
    "git@"@ + host + ":"@ + owner + "/"@ + repo + ".git"@
}

/// `git@<host>:<owner>/<repo>.git`, as a string.
pub fn scp_url_string(host: &str, owner: &str, repo: &str) -> (s: String)
    ensures
        s@ == scp_url(host@, owner@, repo@),
{
    let s1 = concat("git@", host);
    let s2 = concat(s1.as_str(), ":");
    let s3 = concat(s2.as_str(), owner);
    let s4 = concat(s3.as_str(), "/");
    let s5 = concat(s4.as_str(), repo);
    concat(s5.as_str(), ".git")
}

impl Org {
    /// Get the SSH key for a specific forge. `ForgeConfig` holds no
    /// per-forge key, so this is the org-level `ssh_key`.
    pub fn ssh_key_for(&self, forge: &Forge) -> (s: String)
        ensures
            s@ == self.ssh_key@,
    {
        self.ssh_key.clone()
    }

    /// Get the owner for a specific forge. `ForgeConfig` holds no
    /// per-forge owner, so this is the org-level `owner`.
    pub fn owner_for(&self, forge: &Forge) -> (s: String)
        ensures
            s@ == self.owner@,
    {
        self.owner.clone()
    }

    /// Get the SSH host for a forge (direct hostname, not aliased).
    pub fn ssh_host(&self, forge: &Forge) -> (s: &'static str)
        ensures
            s@ == forge.ssh_host_spec(),
    {
        forge.ssh_host()
    }

    /// Get the SSH URL for a repository on a forge:
    /// `git@<host>:<owner>/<repo>.git`.
    pub fn ssh_url(&self, forge: &Forge, repo_name: &str) -> (s: String)
        ensures
            s@ == scp_url(forge.ssh_host_spec(), self.owner@, repo_name@),
    {
        let owner = self.owner_for(forge);
        scp_url_string(forge.ssh_host(), owner.as_str(), repo_name)
    }

    /// Get the SSH URL for the origin forge.
    pub fn origin_url(&self, repo_name: &str) -> (s: String)
        ensures
            s@ == scp_url(self.origin.ssh_host_spec(), self.owner@, repo_name@),
    {
        self.ssh_url(&self.origin, repo_name)
    }
}

/// The name, owner and forges of an org.
#[derive(Debug, Clone)]
pub struct OrgSummary {
    pub name: String,
    pub owner: String,
    pub forges: ForgesConfig,
}

impl OrgSummary {
    /// The summary of `org`.
    pub fn of_org(org: &Org) -> (s: OrgSummary)
        ensures
            s.name@ == org.name@,
            s.owner@ == org.owner@,
            s.forges@ == org.forges@,
    {
        OrgSummary { name: org.name.clone(), owner: org.owner.clone(), forges: org.forges.duplicate() }
    }
}

impl Visibility {
    /// The lowercase name (its `Display` form).
    pub fn as_str(&self) -> (s: &'static str)
        ensures
            s@ == (match self {
                Visibility::Public => "public"@,
                Visibility::Private => "private"@,
            }),
    {
        match self {
            Visibility::Public => "public",
            Visibility::Private => "private",
        }
    }
}

} // verus!
