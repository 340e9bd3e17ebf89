use hyperforge::v5::config::{
    CredentialEntry, CredentialType, ForgeProviderBlock, OrgConfig, OrgForges, OrgName, OrgRepo, ProviderKind,
    RepoName,
};
use hyperforge::v5::forge_wire::RemoteRepo;
use hyperforge::v5::hub::BootstrapStage;
use hyperforge::v5::orgs::{
    bootstrap_org, bootstrap_params, bootstrap_secret_path, import_listed, secret_set, token_form, OrgsEvent,
    TokenForm,
};

fn failure(r: Result<(String, ProviderKind, String), OrgsEvent>) -> (BootstrapStage, String) {
    match r {
        Err(OrgsEvent::BootstrapFailed { stage, message }) => (stage, message),
        other => panic!("unexpected {other:?}"),
    }
}

fn listed(name: &str, url: &str) -> RemoteRepo {
    RemoteRepo {
        name: name.to_string(),
        url: url.to_string(),
        default_branch: None,
        description: None,
        archived: None,
        visibility: None,
    }
}

fn cred(key: &str, t: CredentialType) -> CredentialEntry {
    CredentialEntry { key: key.to_string(), cred_type: t }
}

#[test]
fn bootstrap_parameters_checked_in_order() {
    let (stage, msg) = failure(bootstrap_params(None, Some(ProviderKind::Github), Some("t".to_string())));
    assert_eq!(stage, BootstrapStage::OrgCreate);
    assert_eq!(msg, "missing required parameter 'name'");
    let (stage, msg) = failure(bootstrap_params(Some(String::new()), None, None));
    assert_eq!(stage, BootstrapStage::OrgCreate);
    assert_eq!(msg, "missing required parameter 'name'");
    let (stage, msg) = failure(bootstrap_params(Some("acme".to_string()), None, Some("t".to_string())));
    assert_eq!(stage, BootstrapStage::OrgCreate);
    assert_eq!(msg, "missing required parameter 'provider'");
    let (stage, msg) = failure(bootstrap_params(Some("acme".to_string()), Some(ProviderKind::Gitlab), Some(String::new())));
    assert_eq!(stage, BootstrapStage::TokenResolve);
    assert_eq!(msg, "missing required parameter 'token'");
    let ok = bootstrap_params(Some("acme".to_string()), Some(ProviderKind::Gitlab), Some("tok".to_string())).unwrap();
    assert_eq!(ok, ("acme".to_string(), ProviderKind::Gitlab, "tok".to_string()));
}

#[test]
fn token_forms() {
    assert!(matches!(token_form("gh-token://"), TokenForm::FromCli));
    match token_form("env://GH_TOKEN") {
        TokenForm::FromEnv(v) => assert_eq!(v, "GH_TOKEN"),
        other => panic!("unexpected {other:?}"),
    }
    match token_form("ghp_abc") {
        TokenForm::Raw(t) => assert_eq!(t, "ghp_abc"),
        other => panic!("unexpected {other:?}"),
    }
}

#[test]
fn bootstrap_secret_paths() {
    assert_eq!(bootstrap_secret_path(None, false, ProviderKind::Github, "acme"), "secrets://github/acme/token");
    assert_eq!(bootstrap_secret_path(None, true, ProviderKind::Codeberg, "acme"), "secrets://codeberg/_default/token");
    assert_eq!(
        bootstrap_secret_path(Some("secrets://x/y".to_string()), true, ProviderKind::Gitlab, "acme"),
        "secrets://x/y"
    );
    match secret_set("secrets://x/y".to_string(), 40) {
        OrgsEvent::SecretSet { key, value_length } => {
            assert_eq!(key, "secrets://x/y");
            assert_eq!(value_length, 40);
        }
        other => panic!("unexpected {other:?}"),
    }
}

#[test]
fn bootstrap_new_org_has_one_token() {
    let cfg = bootstrap_org(None, "acme", ProviderKind::Codeberg, "secrets://codeberg/acme/token".to_string());
    assert_eq!(cfg.name.0, "acme");
    assert!(cfg.repos.is_empty());
    assert!(cfg.forges.github.is_none());
    assert!(cfg.forges.gitlab.is_none());
    let creds = &cfg.forges.codeberg.as_ref().unwrap().credentials;
    assert_eq!(creds.len(), 1);
    assert_eq!(creds[0].key, "secrets://codeberg/acme/token");
    assert_eq!(creds[0].cred_type, CredentialType::Token);
}

#[test]
fn bootstrap_existing_org_replaces_tokens_only() {
    let existing = OrgConfig {
        name: OrgName("acme".to_string()),
        forges: OrgForges {
            github: Some(ForgeProviderBlock {
                credentials: vec![
                    cred("secrets://old", CredentialType::Token),
                    cred("/home/me/.ssh/id", CredentialType::SshKey),
                ],
            }),
            codeberg: None,
            gitlab: Some(ForgeProviderBlock { credentials: vec![cred("secrets://gl", CredentialType::Token)] }),
        },
        repos: vec![],
    };
    let cfg = bootstrap_org(Some(existing), "ignored", ProviderKind::Github, "secrets://new".to_string());
    assert_eq!(cfg.name.0, "acme");
    let gh: Vec<(&str, CredentialType)> = cfg
        .forges
        .github
        .as_ref()
        .unwrap()
        .credentials
        .iter()
        .map(|c| (c.key.as_str(), c.cred_type))
        .collect();
    assert_eq!(gh, vec![("/home/me/.ssh/id", CredentialType::SshKey), ("secrets://new", CredentialType::Token)]);
    assert_eq!(cfg.forges.gitlab.as_ref().unwrap().credentials[0].key, "secrets://gl");
}

#[test]
fn import_skips_known_names_and_counts() {
    let mut cfg = OrgConfig {
        name: OrgName("acme".to_string()),
        forges: OrgForges::new(),
        repos: vec![OrgRepo {
            name: RepoName("old".to_string()),
            remotes: vec![],
            metadata: None,
            forges: None,
        }],
    };
    let remote = vec![listed("old", "u0"), listed("new", "u1"), listed("other", "u2")];
    let (added, skipped, total) = import_listed(&mut cfg, &remote);
    assert_eq!((added, skipped, total), (2, 1, 3));
    let names: Vec<&str> = cfg.repos.iter().map(|r| r.name.0.as_str()).collect();
    assert_eq!(names, vec!["old", "new", "other"]);
    assert_eq!(cfg.repos[1].remotes[0].url.0, "u1");
    assert!(cfg.repos[1].remotes[0].provider.is_none());
    let again = import_listed(&mut cfg, &remote);
    assert_eq!(again, (0, 3, 3));
    assert_eq!(cfg.repos.len(), 3);
}
