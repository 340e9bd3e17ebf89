//! Core types for hyperforge: forges, visibility, owner kind and the
//! bump kind given on the command line.

use vstd::prelude::*;

use crate::text::{concat, eq_str, lowercase, to_lowercase};

pub mod config;
pub mod forge;
pub mod org;
pub mod package;
pub mod registry;
pub mod repo;
pub mod secret;
pub mod workspace;

pub use repo::Repo;

verus! {

/// Supported git forges.
#[derive(Debug, Clone, Copy, PartialEq, Eq, Hash, Structural)]
pub enum Forge {
    GitHub,
    Codeberg,
    GitLab,
}

impl Forge {
    /// The lowercase name used in config files and adapters.
    pub open spec fn name(self) -> Seq<char> {
        match self {
            Forge::GitHub => "github"@,
            Forge::Codeberg => "codeberg"@,
            Forge::GitLab => "gitlab"@,
        }
    }

    /// Return the lowercase string representation used in config files and adapters.
    pub fn as_str(&self) -> (s: &'static str)
        ensures
            s@ == self.name(),
    {
        match self {
            Forge::GitHub => "github",
            Forge::Codeberg => "codeberg",
            Forge::GitLab => "gitlab",
        }
    }
}

/// Repository visibility.
#[derive(Debug, Clone, Copy, PartialEq, Eq, Structural)]
pub enum Visibility {
    Public,
    Private,
}

/// The visibility that an already-lowercased name stands for.
pub open spec fn visibility_named(lower: Seq<char>) -> Option<Visibility> {
    if lower == "public"@ {
        Some(Visibility::Public)
    } else if lower == "private"@ {
        Some(Visibility::Private)
    } else {
        None
    }
}

impl Default for Visibility {
    fn default() -> (v: Self)
        ensures
            v == Visibility::Public,
    {
        Visibility::Public
    }
}

impl Visibility {
    /// The visibility named by an already-lowercased string.
    pub fn from_lowercase(lower: &str) -> (r: Option<Visibility>)
        ensures
            r == visibility_named(lower@),
    {
        if eq_str(lower, "public") {
            Some(Visibility::Public)
        } else if eq_str(lower, "private") {
            Some(Visibility::Private)
        } else {
            None
        }
    }

    /// Parse a visibility string ("public" or "private"), case-insensitive.
    pub fn parse(s: &str) -> (r: Result<Self, String>)
        ensures
            match r {
                Ok(v) => visibility_named(lowercase(s@)) == Some(v),
                Err(e) => visibility_named(lowercase(s@)) == None::<Visibility> && e@
                    == "Invalid visibility: "@ + s@ + ". Must be public or private"@,
            },
    {
        let lower = to_lowercase(s);
        match Visibility::from_lowercase(lower.as_str()) {
            Some(v) => Ok(v),
            None => {
                let head = concat("Invalid visibility: ", s);
                Err(concat(head.as_str(), ". Must be public or private"))
            },
        }
    }
}

/// Whether the org name refers to a user account or an organization.
#[derive(Debug, Clone, Copy, PartialEq, Eq, Structural)]
pub enum OwnerType {
    User,
    Org,
}

/// Version bump kind for package publishing.
#[derive(Debug, Clone, Copy, PartialEq, Eq, Structural)]
pub enum VersionBump {
    Patch,
    Minor,
    Major,
}

impl VersionBump {
    /// Parse a bump kind from an optional string, defaulting to Patch.
    pub fn from_str_or_patch(s: Option<&str>) -> (b: Self)
        ensures
            b == (match s {
                Some(x) => if x@ == "minor"@ {
                    VersionBump::Minor
                } else if x@ == "major"@ {
                    VersionBump::Major
                } else {
                    VersionBump::Patch
                },
                None => VersionBump::Patch,
            }),
    {
        match s {
            Some(x) => {
                if eq_str(x, "minor") {
                    VersionBump::Minor
                } else if eq_str(x, "major") {
                    VersionBump::Major
                } else {
                    VersionBump::Patch
                }
            },
            None => VersionBump::Patch,
        }
    }
}

} // verus!
