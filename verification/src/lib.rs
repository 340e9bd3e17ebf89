//! hyperforge: multi-forge repository management.
//!
//! The library holds the logic of hyperforge: the forge, repo and
//! package types, version arithmetic and comparison, publish ordering
//! and gating, git status parsing, remote/host derivation, drift
//! detection and the lifecycle rules for repos.

use vstd::prelude::*;

pub mod assoc;
pub mod doc;
pub mod order;
pub mod services;
pub mod storage;
pub mod text;
pub mod templates;
pub mod types;
pub mod v5;

verus! {

} // verus!
