use hyperforge::v5::adapters::{extract_host, DriftFieldKind};
use hyperforge::v5::config::{
    CredentialEntry, CredentialType, ForgeProviderBlock, OrgConfig, OrgForges, OrgName,
    ProviderKind,
};
use hyperforge::v5::ops::external_auth::gh;
use hyperforge::v5::ops::external_auth::{unavailable, ExternalAuthProvider, ExternalAuthStatus};
use hyperforge::v5::ops::git::parse_status;
use hyperforge::v5::ops::repo::OrgDiffVerdict as V;
use hyperforge::v5::ops::repo::{
    default_token_ref_for, default_token_ref_for_provider, ssh_key_for_provider, token_ref_for,
    token_ref_for_provider,
};

#[test]
fn host_https() {
    assert_eq!(extract_host("https://github.com/demo/widget.git").as_deref(), Some("github.com"));
}

#[test]
fn host_scp() {
    assert_eq!(extract_host("git@github.com:demo/widget.git").as_deref(), Some("github.com"));
}

#[test]
fn host_ssh() {
    assert_eq!(
        extract_host("ssh://git@codeberg.org/demo/widget.git").as_deref(),
        Some("codeberg.org")
    );
}

#[test]
fn host_lowercase() {
    assert_eq!(extract_host("https://GitHub.com/demo/widget.git").as_deref(), Some("github.com"));
}

#[test]
fn host_unparseable_relative() {
    assert!(extract_host("../foo.git").is_none());
}

#[test]
fn drift_field_all_is_sorted() {
    let names: Vec<&'static str> = DriftFieldKind::all().iter().map(|k| k.as_str()).collect();
    assert_eq!(names, vec!["archived", "default_branch", "description", "visibility"]);
}

#[test]
fn git_parse_status_clean() {
    let raw = "# branch.oid abc\n# branch.head main\n# branch.upstream origin/main\n# branch.ab +0 -0\n";
    let s = parse_status(raw);
    assert_eq!(s.branch.as_deref(), Some("main"));
    assert_eq!(s.ahead, 0);
    assert_eq!(s.behind, 0);
    assert!(!s.dirty());
}

#[test]
fn git_parse_status_dirty() {
    let raw = "# branch.head main\n# branch.ab +2 -1\n1 M. N... 100644 100644 100644 aaa bbb file1\n? unknown.txt\n";
    let s = parse_status(raw);
    assert_eq!(s.ahead, 2);
    assert_eq!(s.behind, 1);
    assert_eq!(s.staged, 1);
    assert_eq!(s.untracked, 1);
    assert!(s.dirty());
}

#[test]
fn subprocess_parse_status_clean() {
    let raw = "# branch.oid abc\n# branch.head main\n# branch.upstream origin/main\n# branch.ab +0 -0\n";
    let s = parse_status(raw);
    assert_eq!(s.branch.as_deref(), Some("main"));
    assert_eq!(s.ahead, 0);
    assert_eq!(s.behind, 0);
    assert!(!s.dirty());
}

#[test]
fn subprocess_parse_status_dirty() {
    let raw = "# branch.head main\n# branch.ab +2 -1\n1 M. N... 100644 100644 100644 aaa bbb file1\n? unknown.txt\n";
    let s = parse_status(raw);
    assert_eq!(s.ahead, 2);
    assert_eq!(s.behind, 1);
    assert_eq!(s.staged, 1);
    assert_eq!(s.untracked, 1);
    assert!(s.dirty());
}

#[test]
fn parse_status_logged_in() {
    let raw = "github.com
  ✓ Logged in to github.com account hypermemetic (keyring)
  - Active account: true
  - Git operations protocol: https
  - Token: gho_*****
  - Token scopes: 'gist', 'read:org', 'repo'
";
    let s = gh::parse_status(raw);
    assert_eq!(s.username.as_deref(), Some("hypermemetic"));
    assert_eq!(s.host.as_deref(), Some("github.com"));
    assert_eq!(s.scopes, vec!["gist", "read:org", "repo"]);
}

#[test]
fn parse_status_no_scopes_line() {
    let raw = "github.com\n  ✓ Logged in to github.com account demo (keyring)\n";
    let s = gh::parse_status(raw);
    assert_eq!(s.username.as_deref(), Some("demo"));
    assert!(s.scopes.is_empty());
}

#[test]
fn unimplemented_providers_dont_panic() {
    let _ = unavailable(ExternalAuthProvider::Gitlab, true);
    let _ = unavailable(ExternalAuthProvider::Codeberg, false);
}

#[test]
fn debug_does_not_leak_token_field() {
    let s = ExternalAuthStatus {
        provider: ExternalAuthProvider::Github,
        logged_in: true,
        username: Some("u".into()),
        host: Some("github.com".into()),
        scopes: vec!["repo".into()],
    };
    let dbg = format!("{s:?}");
    assert!(!dbg.contains("token"));
    assert!(!dbg.contains("Token"));
}

fn org_with(entries: Vec<(ProviderKind, Vec<CredentialEntry>)>) -> OrgConfig {
    let mut forges = OrgForges::new();
    for (pk, creds) in entries {
        forges.insert(pk, ForgeProviderBlock { credentials: creds });
    }
    OrgConfig { name: OrgName("test".into()), forges, repos: vec![] }
}

fn token_cred(key: &str) -> CredentialEntry {
    CredentialEntry { key: key.to_string(), cred_type: CredentialType::Token }
}

fn ssh_cred(key: &str) -> CredentialEntry {
    CredentialEntry { key: key.to_string(), cred_type: CredentialType::SshKey }
}

#[test]
fn test_token_ref_for_provider_github() {
    let org = org_with(vec![(ProviderKind::Github, vec![token_cred("secrets://gh")])]);
    assert_eq!(token_ref_for_provider(&org, ProviderKind::Github), Some("secrets://gh"));
    assert_eq!(token_ref_for_provider(&org, ProviderKind::Codeberg), None);
}

#[test]
fn test_token_ref_for_provider_multi() {
    let org = org_with(vec![
        (ProviderKind::Github, vec![token_cred("secrets://gh")]),
        (ProviderKind::Codeberg, vec![token_cred("secrets://cb")]),
    ]);
    assert_eq!(token_ref_for_provider(&org, ProviderKind::Github), Some("secrets://gh"));
    assert_eq!(token_ref_for_provider(&org, ProviderKind::Codeberg), Some("secrets://cb"));
    assert_eq!(token_ref_for_provider(&org, ProviderKind::Gitlab), None);
}

#[test]
fn test_default_token_ref_for_provider() {
    assert_eq!(default_token_ref_for_provider(ProviderKind::Github), "secrets://github/_default/token");
    assert_eq!(
        default_token_ref_for_provider(ProviderKind::Codeberg),
        "secrets://codeberg/_default/token"
    );
    assert_eq!(default_token_ref_for_provider(ProviderKind::Gitlab), "secrets://gitlab/_default/token");
}

#[test]
fn test_ssh_key_for_provider() {
    let org = org_with(vec![
        (ProviderKind::Github, vec![token_cred("secrets://gh"), ssh_cred("~/.ssh/id_ed25519")]),
        (ProviderKind::Codeberg, vec![token_cred("secrets://cb")]),
    ]);
    assert_eq!(ssh_key_for_provider(&org, ProviderKind::Github), Some("~/.ssh/id_ed25519"));
    assert_eq!(ssh_key_for_provider(&org, ProviderKind::Codeberg), None);
}

#[test]
fn test_backward_compat_wrappers() {
    let org = org_with(vec![
        (ProviderKind::Github, vec![token_cred("secrets://gh")]),
        (ProviderKind::Codeberg, vec![token_cred("secrets://cb")]),
    ]);
    assert_eq!(token_ref_for(&org), Some("secrets://gh"));
    assert_eq!(default_token_ref_for(&org), "secrets://github/_default/token");
}

#[test]
fn test_org_diff_verdict_classify() {

    assert_eq!(V::classify("hypermemetic-ai", "hypermemetic", "hypermemetic-ai"), V::Moved);
    assert_eq!(V::classify("hypermemetic", "hypermemetic", "hypermemetic-ai"), V::Stayed);
    assert_eq!(V::classify("someone-else", "hypermemetic", "hypermemetic-ai"), V::Elsewhere);
}

#[test]
fn test_org_diff_verdict_classify_not_found_at_source() {

    assert_eq!(V::classify_not_found_at_source(true), V::Moved);
    assert_eq!(V::classify_not_found_at_source(false), V::Missing);
}

#[test]
fn test_org_diff_verdict_as_str() {

    assert_eq!(V::Moved.as_str(), "moved");
    assert_eq!(V::Stayed.as_str(), "stayed");
    assert_eq!(V::Elsewhere.as_str(), "elsewhere");
    assert_eq!(V::Missing.as_str(), "missing");
}

#[test]
fn test_org_diff_buckets_partial_migration() {

    let from = "hypermemetic";
    let to = "hypermemetic-ai";
    let forge_truth: [(&str, Result<&str, bool>); 6] = [
        ("alpha", Ok("hypermemetic-ai")),
        ("beta", Ok("hypermemetic")),
        ("gamma", Ok("hypermemetic-ai")),
        ("delta", Ok("third-party")),
        ("epsilon", Err(true)),
        ("zeta", Err(false)),
    ];
    let mut moved = Vec::new();
    let mut stayed = Vec::new();
    let mut elsewhere = Vec::new();
    let mut missing = Vec::new();
    for (repo, truth) in forge_truth {
        let verdict = match truth {
            Ok(owner) => V::classify(owner, from, to),
            Err(exists_at_to) => V::classify_not_found_at_source(exists_at_to),
        };
        match verdict {
            V::Moved => moved.push(repo),
            V::Stayed => stayed.push(repo),
            V::Elsewhere => elsewhere.push(repo),
            V::Missing => missing.push(repo),
        }
    }
    assert_eq!(moved, vec!["alpha", "gamma", "epsilon"]);
    assert_eq!(stayed, vec!["beta"]);
    assert_eq!(elsewhere, vec!["delta"]);
    assert_eq!(missing, vec!["zeta"]);
}

#[test]
fn test_backward_compat_empty_org() {
    let org = OrgConfig { name: OrgName("empty".into()), forges: OrgForges::new(), repos: vec![] };
    assert_eq!(token_ref_for(&org), None);
    assert_eq!(default_token_ref_for(&org), "secrets://github/_default/token");
}

#[test]
fn host_ignores_at_sign_in_path() {
    assert_eq!(extract_host("https://a/b@c/d").as_deref(), Some("a"));
    assert_eq!(extract_host("https://user@Host.example:8443/x@y").as_deref(), Some("host.example"));
    assert_eq!(extract_host("ssh://git@codeberg.org/demo/a@b.git").as_deref(), Some("codeberg.org"));
}
