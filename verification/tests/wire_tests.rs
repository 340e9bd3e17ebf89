use hyperforge::doc::DocValue;
use hyperforge::v5::adapters::{ForgeErrorClass, ProviderVisibility};
use hyperforge::v5::config::{CredentialEntry, CredentialType, ForgeProviderBlock, OrgConfig, OrgForges, OrgName, ProviderKind};
use hyperforge::v5::forge_wire::{
    check_create_visibility, check_token, create_body, create_response, exists_response, gitlab_project_url,
    group_lookup, link_header_malformed, list_more_pages, list_retry_as_user, map_status_error,
    metadata_from_doc, migrate_response, parse_next_link, plain_response, push_listed, repo_from_item, list_page_url, CreateStep,
    RemoteRepo,
};
use hyperforge::v5::ops::git::{
    add_args, checkout_args, clear_ssh_outcome, command_failed, commit_args, config_get_outcome, fetch_args,
    gitdir_pointer, pull_outcome, pull_precheck, push_refs_args, set_ssh_command_args, show_args, GitError,
};
use hyperforge::v5::orgs::{
    org_summary, remove_credential, resolve_forge_target, set_credential, update_org, update_request_check,
    validate_credential_key, validate_org_name, OrgsEvent,
};

fn s(x: &str) -> DocValue {
    DocValue::Str(x.to_string())
}

fn table(es: Vec<(&str, DocValue)>) -> DocValue {
    DocValue::Table(es.into_iter().map(|(k, v)| (k.to_string(), v)).collect())
}

#[test]
fn status_errors_by_code() {
    let e = map_status_error(ProviderKind::Github, 403, "403 Forbidden", "API rate limit exceeded for user");
    assert_eq!(e.class, ForgeErrorClass::RateLimited);
    assert_eq!(e.message, "github 403 Forbidden: API rate limit exceeded for user");
    let e = map_status_error(ProviderKind::Codeberg, 403, "403 Forbidden", "rate limit");
    assert_eq!(e.class, ForgeErrorClass::Auth);
    let e = map_status_error(ProviderKind::Gitlab, 404, "404 Not Found", "nope");
    assert_eq!(e.class, ForgeErrorClass::NotFound);
    assert_eq!(e.message, "gitlab 404: nope");
    let e = map_status_error(ProviderKind::Github, 429, "429 Too Many Requests", "");
    assert_eq!(e.class, ForgeErrorClass::RateLimited);
    let e = map_status_error(ProviderKind::Github, 500, "500 Internal Server Error", "x");
    assert_eq!(e.class, ForgeErrorClass::Network);
}

#[test]
fn tokens_and_visibility_guard() {
    assert_eq!(check_token("tok".to_string()).unwrap(), "tok");
    let e = check_token("  \n".to_string()).unwrap_err();
    assert_eq!((e.class, e.message.as_str()), (ForgeErrorClass::Auth, "token is empty"));
    let e = check_create_visibility(ProviderKind::Github, ProviderVisibility::Internal).unwrap_err();
    assert_eq!(e.class, ForgeErrorClass::UnsupportedVisibility);
    assert_eq!(e.message, "github.com does not support visibility 'internal'");
    assert!(check_create_visibility(ProviderKind::Gitlab, ProviderVisibility::Internal).is_ok());
    assert!(check_create_visibility(ProviderKind::Codeberg, ProviderVisibility::Private).is_ok());
}

#[test]
fn create_bodies() {
    let b = create_body(ProviderKind::Github, "r", ProviderVisibility::Private, "", None);
    assert_eq!((b.private, b.visibility.as_deref(), b.description.as_deref()), (Some(true), Some("private"), None));
    let b = create_body(ProviderKind::Codeberg, "r", ProviderVisibility::Public, "d", Some(3));
    assert_eq!((b.private, b.visibility.clone(), b.namespace_id), (Some(false), None, None));
    assert_eq!(b.description.as_deref(), Some("d"));
    let b = create_body(ProviderKind::Gitlab, "r", ProviderVisibility::Internal, "", Some(42));
    assert_eq!((b.path.as_deref(), b.visibility.as_deref(), b.namespace_id), (Some("r"), Some("internal"), Some(42)));
}

#[test]
fn create_answers() {
    assert!(matches!(create_response(ProviderKind::Github, false, 201, "201 Created", "", "o", "r"), CreateStep::Done));
    assert!(matches!(create_response(ProviderKind::Github, false, 404, "404 Not Found", "", "o", "r"), CreateStep::RetryAsUser));
    match create_response(ProviderKind::Github, true, 404, "404 Not Found", "x", "o", "r") {
        CreateStep::Failed(e) => assert_eq!(e.class, ForgeErrorClass::NotFound),
        other => panic!("unexpected {other:?}"),
    }
    match create_response(ProviderKind::Github, false, 422, "422", "name already exists on this account", "o", "r") {
        CreateStep::Failed(e) => {
            assert_eq!(e.class, ForgeErrorClass::Conflict);
            assert_eq!(e.message, "github repo 'o/r' already exists");
        }
        other => panic!("unexpected {other:?}"),
    }
    match create_response(ProviderKind::Codeberg, true, 409, "409 Conflict", "", "o", "r") {
        CreateStep::Failed(e) => assert_eq!(e.message, "codeberg repo 'o/r' already exists"),
        other => panic!("unexpected {other:?}"),
    }
    match create_response(ProviderKind::Codeberg, false, 422, "422", "bad", "o", "r") {
        CreateStep::Failed(e) => assert_eq!((e.class, e.message.as_str()), (ForgeErrorClass::Network, "codeberg 422: bad")),
        other => panic!("unexpected {other:?}"),
    }
    match create_response(ProviderKind::Gitlab, false, 400, "400 Bad Request", "has already been taken", "o", "r") {
        CreateStep::Failed(e) => assert_eq!(e.message, "gitlab project 'o/r' already exists"),
        other => panic!("unexpected {other:?}"),
    }
    match create_response(ProviderKind::Gitlab, false, 400, "400 Bad Request", "invalid", "o", "r") {
        CreateStep::Failed(e) => assert_eq!(e.message, "gitlab 400 Bad Request: invalid"),
        other => panic!("unexpected {other:?}"),
    }
}

#[test]
fn other_answers() {
    assert!(plain_response(ProviderKind::Github, 204, "204 No Content", "").is_ok());
    assert_eq!(exists_response(ProviderKind::Github, 200, "200 OK", "").unwrap(), true);
    assert_eq!(exists_response(ProviderKind::Github, 404, "404 Not Found", "").unwrap(), false);
    assert!(exists_response(ProviderKind::Github, 401, "401 Unauthorized", "").is_err());
    let g = table(vec![("id", DocValue::Int(77))]);
    assert_eq!(group_lookup(200, "200 OK", "", Some(&g)).unwrap(), Some(77));
    assert_eq!(group_lookup(404, "404 Not Found", "", None).unwrap(), None);
    assert!(group_lookup(500, "500", "", None).is_err());
}

#[test]
fn metadata_documents() {
    let gh = table(vec![("default_branch", s("main")), ("private", DocValue::Bool(true))]);
    let m = metadata_from_doc(ProviderKind::Github, &gh);
    assert_eq!((m.default_branch.as_str(), m.description.as_str(), m.archived, m.visibility.as_str()), ("main", "", false, "private"));
    let gh2 = table(vec![("visibility", s("internal")), ("archived", DocValue::Bool(true))]);
    let m = metadata_from_doc(ProviderKind::Github, &gh2);
    assert_eq!((m.archived, m.visibility.as_str()), (true, "internal"));
    let m = metadata_from_doc(ProviderKind::Gitlab, &table(vec![]));
    assert_eq!(m.visibility, "private");
    let m = metadata_from_doc(ProviderKind::Codeberg, &table(vec![("visibility", s("x"))]));
    assert_eq!(m.visibility, "public");
}

#[test]
fn listing_items() {
    let item = table(vec![("name", s("r")), ("html_url", s("https://h/r")), ("private", DocValue::Bool(true))]);
    let r = repo_from_item(ProviderKind::Codeberg, &item).unwrap();
    assert_eq!((r.name.as_str(), r.url.as_str(), r.visibility.as_deref()), ("r", "https://h/r", Some("private")));
    let r = repo_from_item(ProviderKind::Github, &item).unwrap();
    assert_eq!(r.visibility, None);
    let gl = table(vec![("path", s("p")), ("name", s("N")), ("web_url", s("w"))]);
    let r = repo_from_item(ProviderKind::Gitlab, &gl).unwrap();
    assert_eq!((r.name.as_str(), r.url.as_str()), ("p", "w"));
    assert!(repo_from_item(ProviderKind::Github, &table(vec![("name", s(""))])).is_none());
    let page = DocValue::Array(vec![item, table(vec![]), gl]);
    let mut items: Vec<RemoteRepo> = Vec::new();
    assert_eq!(push_listed(ProviderKind::Gitlab, &page, &mut items), 2);
    assert!(list_retry_as_user(404, true, false, 0));
    assert!(!list_retry_as_user(404, true, true, 0));
    assert!(list_more_pages(50, 1));
    assert!(!list_more_pages(49, 1));
    assert!(!list_more_pages(50, 100));
}

#[test]
fn link_headers() {
    let h = "<https://api.github.com/x?page=1>; rel=\"prev\", <https://api.github.com/x?page=3>; rel=\"next\"";
    assert!(!link_header_malformed(h));
    assert_eq!(parse_next_link(h).as_deref(), Some("https://api.github.com/x?page=3"));
    assert_eq!(parse_next_link("<a>; rel=\"last\""), None);
    assert!(link_header_malformed("x> <y; rel=\"next\""));
}

#[test]
fn url_encoding() {
    let base = "https://gitlab.com/api/v4/projects/";
    assert_eq!(gitlab_project_url("gitlab.com", "grp", "proj"), format!("{base}grp%2Fproj"));
    assert_eq!(gitlab_project_url("gitlab.com", "org", "repo name"), format!("{base}org%2Frepo%20name"));
    assert_eq!(gitlab_project_url("gitlab.com", "a-b_c", "d~e"), format!("{base}a-b_c%2Fd~e"));
    assert_eq!(gitlab_project_url("gitlab.com", "\u{e9}", "\u{1F600}"), format!("{base}%C3%A9%2F%F0%9F%98%80"));
}

#[test]
fn git_command_lines() {
    assert_eq!(fetch_args("/r", None), vec!["-C", "/r", "fetch", "--all"]);
    assert_eq!(fetch_args("/r", Some("origin")), vec!["-C", "/r", "fetch", "origin"]);
    assert_eq!(push_refs_args("/r", "origin", Some("main")), vec!["-C", "/r", "push", "origin", "main"]);
    assert_eq!(commit_args("/r", "msg", true), vec!["-C", "/r", "commit", "--allow-empty", "-m", "msg"]);
    assert_eq!(checkout_args("/r", "b", true), vec!["-C", "/r", "checkout", "-B", "b"]);
    assert_eq!(show_args("/r", "v1", "Cargo.toml"), vec!["-C", "/r", "show", "v1:Cargo.toml"]);
    assert_eq!(add_args("/r", &vec!["a".to_string(), ".".to_string()]), vec!["-C", "/r", "add", "a", "."]);
    assert_eq!(
        set_ssh_command_args("/r", "/k"),
        vec!["-C", "/r", "config", "core.sshCommand", "ssh -i /k -o IdentitiesOnly=yes"]
    );
}

#[test]
fn git_outcomes() {
    let nff = pull_outcome(Err(command_failed(Some(128), "fatal: Not possible to fast-forward, aborting.".to_string())));
    assert!(matches!(nff, Err(GitError::NonFastForward)));
    let other = pull_outcome(Err(command_failed(None, "x".to_string())));
    assert!(matches!(other, Err(GitError::CommandFailed { code: -1, .. })));
    assert!(clear_ssh_outcome(Err(command_failed(Some(5), String::new()))).is_ok());
    assert!(clear_ssh_outcome(Err(command_failed(Some(6), String::new()))).is_err());
    assert_eq!(config_get_outcome(Ok("ssh -i k\n".to_string())).unwrap().as_deref(), Some("ssh -i k"));
    assert!(config_get_outcome(Err(command_failed(Some(1), String::new()))).unwrap().is_none());
    assert!(config_get_outcome(Err(GitError::GitNotFound)).is_err());
    assert_eq!(gitdir_pointer("gitdir: /w/.git/worktrees/x\n").unwrap(), "/w/.git/worktrees/x");
    match gitdir_pointer("nonsense") {
        Err(GitError::Io(m)) => assert_eq!(m, "malformed .git pointer file"),
        other => panic!("unexpected {other:?}"),
    }
    assert!(matches!(pull_precheck("/r", true), Err(GitError::DirtyTree(p)) if p == "/r"));
}

fn org(blocks: &[(ProviderKind, &[&str])]) -> OrgConfig {
    let mut forges = OrgForges::new();
    for (p, keys) in blocks {
        forges.insert(
            *p,
            ForgeProviderBlock {
                credentials: keys
                    .iter()
                    .map(|k| CredentialEntry { key: k.to_string(), cred_type: CredentialType::Token })
                    .collect(),
            },
        );
    }
    OrgConfig { name: OrgName("acme".to_string()), forges, repos: Vec::new() }
}

#[test]
fn org_names_and_keys() {
    assert!(validate_org_name("acme").is_ok());
    assert_eq!(validate_org_name("").unwrap_err(), "name must not be empty");
    assert_eq!(validate_org_name(".hidden").unwrap_err(), "name \".hidden\" must not start with '.'");
    assert_eq!(validate_org_name("a/b").unwrap_err(), "name \"a/b\" contains a path separator");
    assert_eq!(validate_org_name(&"x".repeat(65)).unwrap_err(), format!("name \"{}\" exceeds 64 chars", "x".repeat(65)));
    assert!(validate_org_name("caf\u{e9}").unwrap_err().ends_with(" is not ASCII"));
    assert!(validate_credential_key("secrets://gh/token").is_ok());
    assert!(validate_credential_key("/home/u/.ssh/id").is_ok());
    assert_eq!(validate_credential_key("secrets://").unwrap_err(), "secret reference \"secrets://\" has empty path");
    assert!(validate_credential_key("/a/../b").is_err());
    assert!(validate_credential_key("plain-token").is_err());
}

#[test]
fn forge_targets() {
    let one = org(&[(ProviderKind::Codeberg, &[])]);
    assert_eq!(resolve_forge_target(&one, None).unwrap(), ProviderKind::Codeberg);
    let (code, msg) = resolve_forge_target(&one, Some(ProviderKind::Github)).unwrap_err();
    assert_eq!((code.as_str(), msg.as_str()), ("forge_not_found", "org \"acme\" has no forge Github"));
    let two = org(&[(ProviderKind::Github, &[]), (ProviderKind::Gitlab, &[])]);
    let (code, msg) = resolve_forge_target(&two, None).unwrap_err();
    assert_eq!(code, "ambiguous_forge");
    assert_eq!(msg, "org \"acme\" has 2 forges; pass --forge to disambiguate");
    match org_summary(&two) {
        OrgsEvent::OrgSummary { provider, providers, repo_count, .. } => {
            assert_eq!(provider, ProviderKind::Github);
            assert_eq!(providers, vec![ProviderKind::Github, ProviderKind::Gitlab]);
            assert_eq!(repo_count, 0);
        }
        other => panic!("unexpected {other:?}"),
    }
}

#[test]
fn credentials_set_and_remove() {
    let mut o = org(&[(ProviderKind::Github, &["secrets://a", "secrets://b"])]);
    let replaced = set_credential(
        &mut o,
        ProviderKind::Github,
        CredentialEntry { key: "secrets://b".to_string(), cred_type: CredentialType::SshKey },
    );
    assert!(replaced);
    let added = set_credential(
        &mut o,
        ProviderKind::Github,
        CredentialEntry { key: "secrets://c".to_string(), cred_type: CredentialType::Token },
    );
    assert!(!added);
    let creds = &o.forges.github.as_ref().unwrap().credentials;
    assert_eq!(creds.len(), 3);
    assert_eq!(creds[1].cred_type, CredentialType::SshKey);
    assert!(remove_credential(&mut o, ProviderKind::Github, "secrets://a"));
    assert!(!remove_credential(&mut o, ProviderKind::Github, "secrets://zzz"));
    assert_eq!(o.forges.github.as_ref().unwrap().credentials.len(), 2);
}

#[test]
fn org_updates() {
    assert!(update_request_check(None, None, None).is_err());
    let mut o = org(&[(ProviderKind::Github, &["secrets://t"])]);
    update_org(&mut o, Some(ProviderKind::Codeberg), Some(ProviderKind::Gitlab), None).unwrap();
    assert!(o.forges.github.is_none());
    assert_eq!(o.forges.codeberg.as_ref().unwrap().credentials.len(), 1);
    assert!(o.forges.gitlab.as_ref().unwrap().credentials.is_empty());
    update_org(&mut o, None, None, Some(ProviderKind::Gitlab)).unwrap();
    assert!(o.forges.gitlab.is_none());
    let (code, _) = update_org(&mut o, None, None, Some(ProviderKind::Codeberg)).unwrap_err();
    assert_eq!(code, "last_forge");
    let (code, msg) = update_org(&mut o, None, None, Some(ProviderKind::Github)).unwrap_err();
    assert_eq!((code.as_str(), msg.as_str()), ("forge_not_found", "org \"acme\" has no forge Github"));
}

#[test]
fn migrate_answer_read_with_defaults() {
    let full = table(vec![
        ("name", s("mirror-of-x")),
        ("clone_url", s("https://codeberg.org/acme/mirror-of-x.git")),
        ("default_branch", s("main")),
        ("archived", DocValue::Bool(false)),
        ("visibility", s("private")),
    ]);
    let r = migrate_response(&full, "x");
    assert_eq!(r.name, "mirror-of-x");
    assert_eq!(r.url, "https://codeberg.org/acme/mirror-of-x.git");
    assert_eq!(r.default_branch.as_deref(), Some("main"));
    assert!(r.description.is_none());
    assert_eq!(r.archived, Some(false));
    assert_eq!(r.visibility.as_deref(), Some("private"));
    let bare = migrate_response(&table(vec![]), "x");
    assert_eq!(bare.name, "x");
    assert_eq!(bare.url, "");
}

#[test]
fn listing_page_addresses() {
    assert_eq!(
        list_page_url(ProviderKind::Github, "api.github.com", "acme", 1, false, None),
        "https://api.github.com/orgs/acme/repos?per_page=100"
    );
    assert_eq!(
        list_page_url(ProviderKind::Github, "api.github.com", "acme", 1, true, None),
        "https://api.github.com/users/acme/repos?per_page=100"
    );
    assert_eq!(
        list_page_url(ProviderKind::Github, "api.github.com", "acme", 4, false, Some("https://api.github.com/x?page=2")),
        "https://api.github.com/x?page=2"
    );
    assert_eq!(
        list_page_url(ProviderKind::Codeberg, "codeberg.org", "acme", 3, false, None),
        "https://codeberg.org/api/v1/orgs/acme/repos?page=3&limit=50"
    );
    assert_eq!(
        list_page_url(ProviderKind::Codeberg, "codeberg.org", "acme", 3, true, None),
        "https://codeberg.org/api/v1/users/acme/repos?page=1&limit=50"
    );
    assert_eq!(
        list_page_url(ProviderKind::Gitlab, "gitlab.com", "grp/sub", 2, false, None),
        "https://gitlab.com/api/v4/groups/grp%2Fsub/projects?page=2&per_page=50"
    );
    assert_eq!(
        list_page_url(ProviderKind::Gitlab, "gitlab.com", "me", 10, true, None),
        "https://gitlab.com/api/v4/users/me/projects?page=10&per_page=50"
    );
}
