//! Import options, results and errors.

use vstd::prelude::*;

use super::diff::{forge_in, ForgeSet};
use crate::text::concat;
use crate::types::Forge;

verus! {

/// Errors of an import.
#[derive(Debug, Clone)]
pub enum ImportError {
    /// A forge operation failed (its message).
    ForgeError(String),
    /// A storage operation failed (its message).
    StorageError(String),
    /// Organization not found on any forge.
    OrgNotFound { org: String },
    /// No forge adapters configured.
    NoForgesConfigured,
}

impl ImportError {
    /// The human-readable description of the error.
    pub fn message(&self) -> (s: String)
        ensures
            s@ == match self {
                ImportError::ForgeError(m) => "Forge operation failed: "@ + m@,
                ImportError::StorageError(m) => "Storage operation failed: "@ + m@,
                ImportError::OrgNotFound { org } => "Organization '"@ + org@
                    + "' not found on any configured forge"@,
                ImportError::NoForgesConfigured => "No forge adapters configured for import"@,
            },
    {
        match self {
            ImportError::ForgeError(m) => concat("Forge operation failed: ", m.as_str()),
            ImportError::StorageError(m) => concat("Storage operation failed: ", m.as_str()),
            ImportError::OrgNotFound { org } => {
                let a = concat("Organization '", org.as_str());
                concat(a.as_str(), "' not found on any configured forge")
            },
            ImportError::NoForgesConfigured => "No forge adapters configured for import".to_owned(),
        }
    }
}

/// Options for an import.
#[derive(Debug, Clone, Copy)]
pub struct ImportOptions {
    /// Include private repositories.
    pub include_private: bool,
    /// Only import from these forges (empty means all).
    pub from_forges: ForgeSet,
    /// Skip repos that already exist in config.
    pub skip_existing: bool,
    /// Don't save to storage.
    pub dry_run: bool,
}

impl ImportOptions {
    /// Import all repos from all forges.
    pub fn all() -> (o: ImportOptions)
        ensures
            o.include_private,
            forall|f: Forge| !forge_in(o.from_forges, f),
            !o.skip_existing,
            !o.dry_run,
    {
        ImportOptions {
            include_private: true,
            from_forges: ForgeSet::new(),
            skip_existing: false,
            dry_run: false,
        }
    }

    /// Import public repos only.
    pub fn public_only() -> (o: ImportOptions)
        ensures
            !o.include_private,
            forall|f: Forge| !forge_in(o.from_forges, f),
            !o.skip_existing,
            !o.dry_run,
    {
        ImportOptions {
            include_private: false,
            from_forges: ForgeSet::new(),
            skip_existing: false,
            dry_run: false,
        }
    }

    /// Set whether private repos are included.
    pub fn with_private(self, private: bool) -> (o: ImportOptions)
        ensures
            o == (ImportOptions { include_private: private, ..self }),
    {
        let mut o = self;
        o.include_private = private;
        o
    }

    /// Limit to `forge` as well.
    pub fn from_forge(self, forge: Forge) -> (o: ImportOptions)
        ensures
            o.include_private == self.include_private,
            o.skip_existing == self.skip_existing,
            o.dry_run == self.dry_run,
            forall|f: Forge| forge_in(o.from_forges, f) == (forge_in(self.from_forges, f) || f == forge),
    {
        let mut o = self;
        o.from_forges.insert(forge);
        o
    }

    /// Skip repos that already exist.
    pub fn skip_existing(self) -> (o: ImportOptions)
        ensures
            o == (ImportOptions { skip_existing: true, ..self }),
    {
        let mut o = self;
        o.skip_existing = true;
        o
    }

    /// Don't save anything.
    pub fn dry_run(self) -> (o: ImportOptions)
        ensures
            o == (ImportOptions { dry_run: true, ..self }),
    {
        let mut o = self;
        o.dry_run = true;
        o
    }
}

/// The result of an import, by repo name.
#[derive(Debug, Clone)]
pub struct ImportResult {
    /// Organization that was imported.
    pub org: String,
    /// Repos that were imported (new to config).
    pub imported: Vec<String>,
    /// Repos that were skipped (already in config).
    pub skipped: Vec<String>,
    /// Repos that were discovered on forges.
    pub discovered: Vec<String>,
    /// Errors encountered for specific repos: (repo, message).
    pub errors: Vec<(String, String)>,
}

impl ImportResult {
    /// An empty result for `org`.
    pub fn new(org: &str) -> (r: ImportResult)
        ensures
            r.org@ == org@,
            r.imported@.len() == 0,
            r.skipped@.len() == 0,
            r.discovered@.len() == 0,
            r.errors@.len() == 0,
    {
        ImportResult {
            org: org.to_owned(),
            imported: Vec::new(),
            skipped: Vec::new(),
            discovered: Vec::new(),
            errors: Vec::new(),
        }
    }

    /// Total number of repos processed: imported, skipped and failed.
    pub fn total(&self) -> (n: usize)
        requires
            self.imported@.len() + self.skipped@.len() + self.errors@.len() <= usize::MAX,
        ensures
            n == self.imported@.len() + self.skipped@.len() + self.errors@.len(),
    {
        self.imported.len() + self.skipped.len() + self.errors.len()
    }

    /// No errors.
    pub fn is_success(&self) -> (b: bool)
        ensures
            b == (self.errors@.len() == 0),
    {
        self.errors.len() == 0
    }
}

} // verus!
