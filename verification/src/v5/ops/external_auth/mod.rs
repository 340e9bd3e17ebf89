//! Forge-CLI authentication (`gh`, and later `glab` / `berg`): the
//! providers, the errors, the status snapshot, and the reading of the
//! CLIs' output.
//!
//! Spawning the CLIs is done by the program around this library; it
//! hands their output to the functions here. Tokens never appear in
//! the status snapshot.

use vstd::prelude::*;

use crate::text::concat;

pub mod gh;

verus! {

/// Closed set of forge auth providers. Only `Github` has a CLI backend
/// so far.
#[derive(Debug, Clone, Copy, PartialEq, Eq, Structural)]
pub enum ExternalAuthProvider {
    Github,
    Codeberg,
    Gitlab,
}

/// The CLI of a provider.
pub open spec fn cli_name(p: ExternalAuthProvider) -> Seq<char> {
    match p {
        ExternalAuthProvider::Github => "gh"@,
        ExternalAuthProvider::Codeberg => "berg"@,
        ExternalAuthProvider::Gitlab => "glab"@,
    }
}

/// The display name of a provider.
pub open spec fn provider_name(p: ExternalAuthProvider) -> Seq<char> {
    match p {
        ExternalAuthProvider::Github => "github"@,
        ExternalAuthProvider::Codeberg => "codeberg"@,
        ExternalAuthProvider::Gitlab => "gitlab"@,
    }
}

/// The debug name of a provider (its variant name).
pub open spec fn provider_variant(p: ExternalAuthProvider) -> Seq<char> {
    match p {
        ExternalAuthProvider::Github => "Github"@,
        ExternalAuthProvider::Codeberg => "Codeberg"@,
        ExternalAuthProvider::Gitlab => "Gitlab"@,
    }
}

impl ExternalAuthProvider {
    /// The provider's CLI binary.
    pub fn cli(&self) -> (s: &'static str)
        ensures
            s@ == cli_name(*self),
    {
        match self {
            ExternalAuthProvider::Github => "gh",
            ExternalAuthProvider::Codeberg => "berg",
            ExternalAuthProvider::Gitlab => "glab",
        }
    }

    /// The provider's display name.
    pub fn as_str(&self) -> (s: &'static str)
        ensures
            s@ == provider_name(*self),
    {
        match self {
            ExternalAuthProvider::Github => "github",
            ExternalAuthProvider::Codeberg => "codeberg",
            ExternalAuthProvider::Gitlab => "gitlab",
        }
    }
}

/// Closed error set for external-auth operations.
#[derive(Debug, Clone)]
pub enum ExternalAuthError {
    CliNotFound { provider: ExternalAuthProvider },
    NotLoggedIn { provider: ExternalAuthProvider },
    Network(String),
    InvalidResponse(String),
    Io(String),
    Unimplemented(ExternalAuthProvider),
}

impl ExternalAuthError {
    /// The stable machine-readable code of the error.
    pub fn code(&self) -> (s: &'static str)
        ensures
            s@ == match self {
                ExternalAuthError::CliNotFound { .. } => "cli_not_found"@,
                ExternalAuthError::NotLoggedIn { .. } => "not_logged_in"@,
                ExternalAuthError::Network(_) => "network"@,
                ExternalAuthError::InvalidResponse(_) => "invalid_response"@,
                ExternalAuthError::Io(_) => "io"@,
                ExternalAuthError::Unimplemented(_) => "unimplemented"@,
            },
    {
        match self {
            ExternalAuthError::CliNotFound { .. } => "cli_not_found",
            ExternalAuthError::NotLoggedIn { .. } => "not_logged_in",
            ExternalAuthError::Network(_) => "network",
            ExternalAuthError::InvalidResponse(_) => "invalid_response",
            ExternalAuthError::Io(_) => "io",
            ExternalAuthError::Unimplemented(_) => "unimplemented",
        }
    }

    /// The human-readable description of the error.
    pub fn message(&self) -> (s: String)
        ensures
            s@ == match self {
                ExternalAuthError::CliNotFound { provider } => provider_name(*provider)
                    + " cli not found"@,
                ExternalAuthError::NotLoggedIn { provider } => provider_name(*provider)
                    + " cli not logged in"@,
                ExternalAuthError::Network(m) => "network: "@ + m@,
                ExternalAuthError::InvalidResponse(m) => "invalid response: "@ + m@,
                ExternalAuthError::Io(m) => "io: "@ + m@,
                ExternalAuthError::Unimplemented(p) => "provider "@ + provider_variant(*p)
                    + " not implemented in v1"@,
            },
    {
        match self {
            ExternalAuthError::CliNotFound { provider } => concat(provider.as_str(), " cli not found"),
            ExternalAuthError::NotLoggedIn { provider } => concat(
                provider.as_str(),
                " cli not logged in",
            ),
            ExternalAuthError::Network(m) => concat("network: ", m.as_str()),
            ExternalAuthError::InvalidResponse(m) => concat("invalid response: ", m.as_str()),
            ExternalAuthError::Io(m) => concat("io: ", m.as_str()),
            ExternalAuthError::Unimplemented(p) => {
                let name = match p {
                    ExternalAuthProvider::Github => "Github",
                    ExternalAuthProvider::Codeberg => "Codeberg",
                    ExternalAuthProvider::Gitlab => "Gitlab",
                };
                let a = concat("provider ", name);
                concat(a.as_str(), " not implemented in v1")
            },
        }
    }
}

/// Snapshot of an external CLI's auth state. It holds no token.
#[derive(Debug, Clone)]
pub struct ExternalAuthStatus {
    pub provider: ExternalAuthProvider,
    pub logged_in: bool,
    pub username: Option<String>,
    pub host: Option<String>,
    pub scopes: Vec<String>,
}

/// Why an auth operation cannot run for `provider`: its CLI is not
/// installed, or it has no backend yet; `None` when it can.
pub fn unavailable(provider: ExternalAuthProvider, cli_installed: bool) -> (r: Option<ExternalAuthError>)
    ensures
        match r {
            None => cli_installed && provider == ExternalAuthProvider::Github,
            Some(ExternalAuthError::CliNotFound { provider: p }) => !cli_installed && p == provider,
            Some(ExternalAuthError::Unimplemented(p)) => cli_installed && p == provider && provider
                != ExternalAuthProvider::Github,
            Some(_) => false,
        },
{
    if !cli_installed {
        return Some(ExternalAuthError::CliNotFound { provider });
    }
    match provider {
        ExternalAuthProvider::Github => None,
        p => Some(ExternalAuthError::Unimplemented(p)),
    }
}

} // verus!
