//! The per-repo `.hyperforge/config.toml`: its shape and the errors of
//! reading and writing it (the file I/O and TOML are the caller's).

use vstd::prelude::*;

use crate::text::concat;
use crate::v5::config::{OrgName, ProviderKind};

verus! {

/// On-disk shape of `<repo>/.hyperforge/config.toml`.
#[derive(Debug, Clone)]
pub struct HyperforgeRepoConfig {
    pub repo_name: String,
    pub org: OrgName,
    pub forges: Vec<ProviderKind>,
    pub default_branch: Option<String>,
    pub visibility: Option<String>,
    pub description: Option<String>,
}

/// Errors of reading or writing the per-repo config.
#[derive(Debug, Clone)]
pub enum InitError {
    TargetNotDir(String),
    AlreadyExists(String),
    InvalidToml(String),
    Io(String),
}

impl InitError {
    /// The stable machine-readable code of the error.
    pub fn code(&self) -> (s: &'static str)
        ensures
            s@ == match self {
                InitError::TargetNotDir(_) => "not_a_directory"@,
                InitError::AlreadyExists(_) => "already_exists"@,
                InitError::InvalidToml(_) => "invalid_toml"@,
                InitError::Io(_) => "io_error"@,
            },
    {
        match self {
            InitError::TargetNotDir(_) => "not_a_directory",
            InitError::AlreadyExists(_) => "already_exists",
            InitError::InvalidToml(_) => "invalid_toml",
            InitError::Io(_) => "io_error",
        }
    }

    /// The human-readable description of the error.
    pub fn message(&self) -> (s: String)
        ensures
            s@ == match self {
                InitError::TargetNotDir(p) => "target path is not a directory: "@ + p@,
                InitError::AlreadyExists(p) => "already exists at "@ + p@
                    + " \u{2014} pass force=true to overwrite"@,
                InitError::InvalidToml(m) => "invalid TOML: "@ + m@,
                InitError::Io(m) => "io: "@ + m@,
            },
    {
        match self {
            InitError::TargetNotDir(p) => concat("target path is not a directory: ", p.as_str()),
            InitError::AlreadyExists(p) => {
                let a = concat("already exists at ", p.as_str());
                concat(a.as_str(), " \u{2014} pass force=true to overwrite")
            },
            InitError::InvalidToml(m) => concat("invalid TOML: ", m.as_str()),
            InitError::Io(m) => concat("io: ", m.as_str()),
        }
    }
}

} // verus!
