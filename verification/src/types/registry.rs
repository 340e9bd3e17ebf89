//! Container registry types: strongly typed image references, registries, and auth.

use vstd::prelude::*;

use super::Forge;
use crate::text::concat;

verus! {

/// Supported container registries, derived from forge or explicit.
#[derive(Debug, Clone, PartialEq, Eq)]
pub enum ContainerRegistry {
    /// GitHub Container Registry (ghcr.io)
    Ghcr,
    /// Codeberg OCI registry (codeberg.org)
    Codeberg,
    /// GitLab Container Registry (registry.gitlab.com)
    GitLab,
    /// Arbitrary OCI-compliant registry
    Custom(String),
}

impl ContainerRegistry {
    /// Registry hostname for OCI operations.
    pub open spec fn host_spec(&self) -> Seq<char> {
        match self {
            ContainerRegistry::Ghcr => "ghcr.io"@,
            ContainerRegistry::Codeberg => "codeberg.org"@,
            ContainerRegistry::GitLab => "registry.gitlab.com"@,
            ContainerRegistry::Custom(h) => h@,
        }
    }

    /// Registry hostname for OCI operations.
    pub fn host(&self) -> (s: &str)
        ensures
            s@ == self.host_spec(),
    {
        match self {
            ContainerRegistry::Ghcr => "ghcr.io",
            ContainerRegistry::Codeberg => "codeberg.org",
            ContainerRegistry::GitLab => "registry.gitlab.com",
            ContainerRegistry::Custom(host) => host.as_str(),
        }
    }

    /// The forge name used for token lookup.
    pub fn token_forge_name(&self) -> (s: &str)
        ensures
            s@ == (match self {
                ContainerRegistry::Ghcr => "github"@,
                ContainerRegistry::Codeberg => "codeberg"@,
                ContainerRegistry::GitLab => "gitlab"@,
                ContainerRegistry::Custom(_) => "custom"@,
            }),
    {
        match self {
            ContainerRegistry::Ghcr => "github",
            ContainerRegistry::Codeberg => "codeberg",
            ContainerRegistry::GitLab => "gitlab",
            ContainerRegistry::Custom(_) => "custom",
        }
    }

    /// The registry of a forge.
    pub open spec fn of_forge(f: Forge) -> ContainerRegistry {
        match f {
            Forge::GitHub => ContainerRegistry::Ghcr,
            Forge::Codeberg => ContainerRegistry::Codeberg,
            Forge::GitLab => ContainerRegistry::GitLab,
        }
    }

    /// The registry of a forge.
    pub fn from_forge(f: Forge) -> (r: ContainerRegistry)
        ensures
            r == ContainerRegistry::of_forge(f),
    {
        match f {
            Forge::GitHub => ContainerRegistry::Ghcr,
            Forge::Codeberg => ContainerRegistry::Codeberg,
            Forge::GitLab => ContainerRegistry::GitLab,
        }
    }
}

impl From<Forge> for ContainerRegistry {
    fn from(forge: Forge) -> (r: Self) {
        ContainerRegistry::from_forge(forge)
    }
}

impl vstd::std_specs::convert::FromSpecImpl<Forge> for ContainerRegistry {
    open spec fn obeys_from_spec() -> bool {
        true
    }

    open spec fn from_spec(v: Forge) -> ContainerRegistry {
        ContainerRegistry::of_forge(v)
    }
}

impl<'a> From<&'a Forge> for ContainerRegistry {
    fn from(forge: &'a Forge) -> (r: Self) {
        ContainerRegistry::from_forge(*forge)
    }
}

impl<'a> vstd::std_specs::convert::FromSpecImpl<&'a Forge> for ContainerRegistry {
    open spec fn obeys_from_spec() -> bool {
        true
    }

    open spec fn from_spec(v: &'a Forge) -> ContainerRegistry {
        ContainerRegistry::of_forge(*v)
    }
}

/// A fully typed container image reference.
#[derive(Debug, Clone)]
pub struct ImageRef {
    pub registry: ContainerRegistry,
    pub org: String,
    pub name: String,
    pub tag: String,
}

impl ImageRef {
    pub fn new(registry: ContainerRegistry, org: &str, name: &str, tag: &str) -> (r: Self)
        ensures
            r.registry == registry,
            r.org@ == org@,
            r.name@ == name@,
            r.tag@ == tag@,
    {
        ImageRef { registry, org: org.to_owned(), name: name.to_owned(), tag: tag.to_owned() }
    }

    /// `{host}/{org}/{name}:{tag}`.
    pub open spec fn full_name_spec(&self) -> Seq<char> {
        self.registry.host_spec() + "/"@ + self.org@ + "/"@ + self.name@ + ":"@ + self.tag@
    }

    /// Full image reference: `{host}/{org}/{name}:{tag}`.
    pub fn full_name(&self) -> (s: String)
        ensures
            s@ == self.full_name_spec(),
    {
        let s1 = concat(self.registry.host(), "/");
        let s2 = concat(s1.as_str(), self.org.as_str());
        let s3 = concat(s2.as_str(), "/");
        let s4 = concat(s3.as_str(), self.name.as_str());
        let s5 = concat(s4.as_str(), ":");
        concat(s5.as_str(), self.tag.as_str())
    }

    /// OCI reference string: `{host}/{org}/{name}:{tag}`.
    pub fn oci_reference(&self) -> (s: String)
        ensures
            s@ == self.full_name_spec(),
    {
        self.full_name()
    }

    /// Local image ref (no registry): `{name}:{tag}`.
    pub fn local_name(&self) -> (s: String)
        ensures
            s@ == self.name@ + ":"@ + self.tag@,
    {
        let s1 = concat(self.name.as_str(), ":");
        concat(s1.as_str(), self.tag.as_str())
    }
}

/// Credentials for authenticating to a container registry.
#[derive(Debug, Clone)]
pub enum RegistryAuth {
    /// Bearer/PAT token
    Token(String),
    /// Username + password/token
    Basic { username: String, password: String },
    /// No authentication
    Anonymous,
}

} // verus!
