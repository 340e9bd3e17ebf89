//! Workspace bindings: which org a directory belongs to and why.

use vstd::prelude::*;

verus! {

/// A directory bound to an org.
#[derive(Debug, Clone)]
pub struct WorkspaceBinding {
    pub path: String,
    pub org_name: String,
}

/// The org a workspace resolved to, and how.
#[derive(Debug, Clone)]
pub struct WorkspaceResolution {
    pub org_name: String,
    pub source: ResolutionSource,
}

/// How a workspace's org was resolved.
#[derive(Debug, Clone)]
pub enum ResolutionSource {
    Explicit,
    LocalConfig,
    WorkspaceBinding { path: String },
    Default,
}

} // verus!
