//! The v5 surface: config schemas, forge adapters, build and repo ops.

pub mod adapters;
pub mod build;
pub mod build_hub;
pub mod config;
pub mod forge_wire;
pub mod hub;
pub mod ops;
pub mod orgs;
