//! Build-side logic: manifests, publish ordering, pre-flight gates,
//! registry version comparison, release bumps and distribution files.

pub mod diff;
pub mod dist;
pub mod exec;
pub mod manifest;
pub mod patches;
pub mod preflight;
pub mod registry;
pub mod release;
