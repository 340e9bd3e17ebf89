use hyperforge::v5::adapters::ForgePortError;
use hyperforge::v5::config::{
    CredentialEntry, CredentialType, DomainName, GlobalConfig, ProviderKind, ProviderMap, WorkspaceName,
};
use hyperforge::v5::hub::{
    auth_check_result, auth_requirement, begin_steps, config_show, credential_presence, default_global_yaml,
    expand_key_path, org_not_found, org_selected, probe_url, reload_done, ssh_key_params_check, ssh_key_set,
    ssh_key_show, status_event, with_ssh_key, HyperforgeV5Event,
};

fn token(key: &str) -> CredentialEntry {
    CredentialEntry { key: key.to_string(), cred_type: CredentialType::Token }
}

fn ssh(key: &str) -> CredentialEntry {
    CredentialEntry { key: key.to_string(), cred_type: CredentialType::SshKey }
}

#[test]
fn status_event_carries_version_and_dir() {
    match status_event("5.0.0", "/etc/hf") {
        HyperforgeV5Event::Status { version, config_dir } => {
            assert_eq!(version, "5.0.0");
            assert_eq!(config_dir, "/etc/hf");
        }
        other => panic!("unexpected {other:?}"),
    }
}

#[test]
fn org_filter_selects_by_name() {
    assert!(org_selected(None, "acme"));
    assert!(org_selected(Some("acme"), "acme"));
    assert!(!org_selected(Some("acme"), "other"));
}

#[test]
fn probe_urls_per_provider() {
    assert_eq!(probe_url(ProviderKind::Github), "https://github.com/__probe__/__probe__.git");
    assert_eq!(probe_url(ProviderKind::Codeberg), "https://codeberg.org/__probe__/__probe__.git");
    assert_eq!(probe_url(ProviderKind::Gitlab), "https://gitlab.com/__probe__/__probe__.git");
}

#[test]
fn auth_check_marks_only_auth_errors_invalid() {
    let cred = token("secrets://github/acme/token");
    match auth_check_result("acme", &cred, ProviderKind::Github, Ok(false)).unwrap() {
        HyperforgeV5Event::AuthCheckResult { org, key, provider, valid, message } => {
            assert_eq!(org, "acme");
            assert_eq!(key, "secrets://github/acme/token");
            assert_eq!(provider, "github");
            assert!(valid);
            assert!(message.is_none());
        }
        other => panic!("unexpected {other:?}"),
    }
    match auth_check_result("acme", &cred, ProviderKind::Gitlab, Err(ForgePortError::auth("bad token"))).unwrap() {
        HyperforgeV5Event::AuthCheckResult { provider, valid, message, .. } => {
            assert_eq!(provider, "gitlab");
            assert!(!valid);
            assert_eq!(message.as_deref(), Some("bad token"));
        }
        other => panic!("unexpected {other:?}"),
    }
    match auth_check_result("acme", &cred, ProviderKind::Codeberg, Err(ForgePortError::network("down"))).unwrap() {
        HyperforgeV5Event::AuthCheckResult { valid, message, .. } => {
            assert!(valid);
            assert!(message.is_none());
        }
        other => panic!("unexpected {other:?}"),
    }
}

#[test]
fn auth_check_skips_ssh_keys() {
    let cred = ssh("/home/me/.ssh/id");
    assert!(auth_check_result("acme", &cred, ProviderKind::Github, Ok(true)).is_none());
}

#[test]
fn credential_presence_cases() {
    assert_eq!(credential_presence(false, Some("x")), None);
    assert_eq!(credential_presence(true, None), Some(false));
    assert_eq!(credential_presence(true, Some("")), Some(false));
    assert_eq!(credential_presence(true, Some("tok")), Some(true));
}

#[test]
fn auth_requirement_names_type() {
    match auth_requirement("acme", ProviderKind::Codeberg, &ssh("/k"), None) {
        HyperforgeV5Event::AuthRequirement { org, provider, key, cred_type, present } => {
            assert_eq!(org, "acme");
            assert_eq!(provider, "codeberg");
            assert_eq!(key, "/k");
            assert_eq!(cred_type, "ssh_key");
            assert_eq!(present, None);
        }
        other => panic!("unexpected {other:?}"),
    }
    match auth_requirement("acme", ProviderKind::Github, &token("secrets://t"), Some(true)) {
        HyperforgeV5Event::AuthRequirement { cred_type, present, .. } => {
            assert_eq!(cred_type, "token");
            assert_eq!(present, Some(true));
        }
        other => panic!("unexpected {other:?}"),
    }
}

#[test]
fn reload_counts() {
    match reload_done(3, 2, None) {
        HyperforgeV5Event::ReloadDone { orgs, workspaces, secrets_refs } => {
            assert_eq!((orgs, workspaces, secrets_refs), (3, 2, 0));
        }
        other => panic!("unexpected {other:?}"),
    }
    match reload_done(0, 0, Some(7)) {
        HyperforgeV5Event::ReloadDone { secrets_refs, .. } => assert_eq!(secrets_refs, 7),
        other => panic!("unexpected {other:?}"),
    }
}

#[test]
fn config_show_lists_provider_map() {
    let global = GlobalConfig {
        default_workspace: Some(WorkspaceName("main".to_string())),
        provider_map: ProviderMap {
            entries: vec![
                (DomainName("github.com".to_string()), ProviderKind::Github),
                (DomainName("git.example.org".to_string()), ProviderKind::Gitlab),
            ],
        },
    };
    match config_show(&global) {
        HyperforgeV5Event::ConfigShow { provider_map, default_workspace } => {
            assert_eq!(
                provider_map,
                vec![
                    ("github.com".to_string(), "github".to_string()),
                    ("git.example.org".to_string(), "gitlab".to_string()),
                ]
            );
            assert_eq!(default_workspace.as_deref(), Some("main"));
        }
        other => panic!("unexpected {other:?}"),
    }
}

#[test]
fn org_not_found_message() {
    match org_not_found("ghost") {
        HyperforgeV5Event::Error { code, message } => {
            assert_eq!(code.as_deref(), Some("not_found"));
            assert_eq!(message, "org 'ghost' not found");
        }
        other => panic!("unexpected {other:?}"),
    }
}

#[test]
fn ssh_key_params_must_be_present() {
    assert!(ssh_key_params_check("acme", "github", "/k").is_none());
    for (o, f, k) in [("", "github", "/k"), ("acme", "", "/k"), ("acme", "github", "")] {
        match ssh_key_params_check(o, f, k) {
            Some(HyperforgeV5Event::Error { code, message }) => {
                assert_eq!(code.as_deref(), Some("validation"));
                assert_eq!(message, "missing required parameter");
            }
            other => panic!("unexpected {other:?}"),
        }
    }
}

#[test]
fn ssh_key_path_expands_home() {
    assert_eq!(expand_key_path("~/.ssh/id_ed25519", Some("/home/me")), "/home/me/.ssh/id_ed25519");
    assert_eq!(expand_key_path("~/.ssh/id_ed25519", None), "~/.ssh/id_ed25519");
    assert_eq!(expand_key_path("/abs/key", Some("/home/me")), "/abs/key");
    assert_eq!(expand_key_path("~", Some("/home/me")), "~");
}

#[test]
fn setting_ssh_key_replaces_old_one_and_is_shown() {
    let creds = vec![ssh("/old"), token("secrets://a"), ssh("/older"), token("secrets://b")];
    let updated = with_ssh_key(&creds, "/new");
    let keys: Vec<(&str, CredentialType)> = updated.iter().map(|c| (c.key.as_str(), c.cred_type)).collect();
    assert_eq!(
        keys,
        vec![
            ("secrets://a", CredentialType::Token),
            ("secrets://b", CredentialType::Token),
            ("/new", CredentialType::SshKey),
        ]
    );
    match ssh_key_show("acme".to_string(), None, ProviderKind::Github, &updated) {
        HyperforgeV5Event::SshKeyShow { org, forge, path } => {
            assert_eq!(org, "acme");
            assert_eq!(forge, "github");
            assert_eq!(path.as_deref(), Some("/new"));
        }
        other => panic!("unexpected {other:?}"),
    }
}

#[test]
fn ssh_key_show_filter_and_absence() {
    let creds = vec![token("secrets://a")];
    match ssh_key_show("acme".to_string(), Some("gitlab"), ProviderKind::Github, &creds) {
        HyperforgeV5Event::SshKeyShow { forge, path, .. } => {
            assert_eq!(forge, "gitlab");
            assert!(path.is_none());
        }
        other => panic!("unexpected {other:?}"),
    }
    match ssh_key_show("acme".to_string(), Some("github"), ProviderKind::Github, &creds) {
        HyperforgeV5Event::SshKeyShow { forge, path, .. } => {
            assert_eq!(forge, "github");
            assert!(path.is_none());
        }
        other => panic!("unexpected {other:?}"),
    }
    let both = vec![ssh("/first"), ssh("/second")];
    match ssh_key_show("acme".to_string(), None, ProviderKind::Codeberg, &both) {
        HyperforgeV5Event::SshKeyShow { path, .. } => assert_eq!(path.as_deref(), Some("/first")),
        other => panic!("unexpected {other:?}"),
    }
}

#[test]
fn ssh_key_set_event() {
    match ssh_key_set("acme".to_string(), "github".to_string(), "/k".to_string()) {
        HyperforgeV5Event::SshKeySet { org, forge, path } => {
            assert_eq!((org.as_str(), forge.as_str(), path.as_str()), ("acme", "github", "/k"));
        }
        other => panic!("unexpected {other:?}"),
    }
}

#[test]
fn begin_onboarding() {
    assert_eq!(
        default_global_yaml(),
        "provider_map:\n  github.com: github\n  codeberg.org: codeberg\n  gitlab.com: gitlab\n"
    );
    let actions: Vec<String> = begin_steps()
        .into_iter()
        .map(|e| match e {
            HyperforgeV5Event::BeginNextStep { action, .. } => action,
            other => panic!("unexpected {other:?}"),
        })
        .collect();
    assert_eq!(actions, vec!["orgs.create", "secrets.set", "orgs.set_credential", "repos.import"]);
}
