//! Operations on repos and their forges: git, lifecycle rules, auth.

pub mod analytics;
pub mod external_auth;
pub mod git;
pub mod fs;
pub mod repo;
pub mod state;
