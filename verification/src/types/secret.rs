//! Secret providers and well-known secret key names.

use vstd::prelude::*;

verus! {

/// Where a secret is stored.
#[derive(Debug, Clone, Copy, PartialEq, Eq, Structural)]
pub enum SecretProvider {
    Keychain,
    Env,
    File,
    Pass,
}

impl Default for SecretProvider {
    fn default() -> (p: Self)
        ensures
            p == SecretProvider::Keychain,
    {
        SecretProvider::Keychain
    }
}

/// A secret key, its provider and whether it is set.
#[derive(Debug, Clone)]
pub struct SecretKey {
    pub key: String,
    pub provider: SecretProvider,
    pub is_set: bool,
}

/// Well-known secret key: the GitHub token.
pub const GITHUB_TOKEN: &'static str = "github-token";

/// Well-known secret key: the Codeberg token.
pub const CODEBERG_TOKEN: &'static str = "codeberg-token";

/// Well-known secret key: the crates.io token.
pub const CRATES_TOKEN: &'static str = "crates-token";

/// Well-known secret key: the Hackage token.
pub const HACKAGE_TOKEN: &'static str = "hackage-token";

} // verus!
