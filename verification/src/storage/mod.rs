//! Local storage of hyperforge's configuration: where the files live,
//! the global config with its org templates, and token states.
//!
//! Reading and writing the files is done by the program around this
//! library.

pub mod config;
pub mod org_storage;
pub mod paths;
pub mod token_storage;

pub use paths::HyperforgePaths;
