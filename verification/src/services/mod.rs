//! Sync services: diffing desired against observed state, importing
//! repos from forges, symmetric forge-to-forge sync, and applying
//! plans. The forge and storage calls are made by the program around
//! this library; the options, outcomes and their rules live here.

pub mod diff;
pub mod import;
pub mod symmetric_sync;
pub mod sync;
