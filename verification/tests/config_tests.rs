use hyperforge::storage::config::{expand_tilde, resolve_org, resolve_orgs, GlobalConfig, OrgConfig, RawOrgConfig};
use hyperforge::types::forge::ForgesConfig;
use hyperforge::types::secret::SecretProvider;
use hyperforge::types::{Forge, Visibility};

fn full(owner: &str) -> RawOrgConfig {
    RawOrgConfig {
        template: None,
        owner: Some(owner.to_string()),
        ssh_key: Some(format!("~/.ssh/{owner}")),
        origin: Some(Forge::GitHub),
        forges: Some(ForgesConfig::Legacy(vec![Forge::GitHub, Forge::Codeberg])),
        default_visibility: None,
    }
}

fn templated(template: &str) -> RawOrgConfig {
    RawOrgConfig {
        template: Some(template.to_string()),
        owner: None,
        ssh_key: None,
        origin: Some(Forge::Codeberg),
        forges: None,
        default_visibility: Some(Visibility::Private),
    }
}

fn org<'a>(g: &'a GlobalConfig, name: &str) -> &'a OrgConfig {
    g.get_org(name).unwrap()
}

#[test]
fn untemplated_org_needs_every_field() {
    let mut raw = full("acme");
    raw.ssh_key = None;
    assert_eq!(resolve_org("acme", &raw, None).unwrap_err(), "Org 'acme' missing required field 'ssh_key'");
    let ok = resolve_org("acme", &full("acme"), None).unwrap();
    assert_eq!(ok.owner, "acme");
    assert_eq!(ok.default_visibility, Visibility::Public);
    assert!(ok.credential_source.is_none());
}

#[test]
fn templated_org_inherits_what_it_leaves_out() {
    let base = resolve_org("base", &full("base-owner"), None).unwrap();
    let child = resolve_org("child", &templated("base"), Some(&base)).unwrap();
    assert_eq!(child.owner, "base-owner");
    assert_eq!(child.ssh_key, "~/.ssh/base-owner");
    assert_eq!(child.origin, Forge::Codeberg);
    assert_eq!(child.default_visibility, Visibility::Private);
    assert_eq!(child.credential_source.as_deref(), Some("base"));
    assert_eq!(child.credential_org("child"), "base");
    assert_eq!(base.credential_org("base"), "base");
}

#[test]
fn two_pass_resolution_puts_templates_first() {
    let raws = vec![
        ("child".to_string(), templated("base")),
        ("base".to_string(), full("base-owner")),
        ("grandchild".to_string(), templated("child")),
    ];
    let orgs = resolve_orgs(&raws).unwrap();
    let names: Vec<&str> = orgs.iter().map(|(n, _)| n.as_str()).collect();
    assert_eq!(names, vec!["base", "child", "grandchild"]);
    assert_eq!(orgs[2].1.owner, "base-owner");
    assert_eq!(orgs[2].1.credential_source.as_deref(), Some("child"));
}

#[test]
fn template_must_be_resolved_first() {
    let raws = vec![
        ("grandchild".to_string(), templated("child")),
        ("child".to_string(), templated("base")),
        ("base".to_string(), full("base-owner")),
    ];
    assert_eq!(resolve_orgs(&raws).unwrap_err(), "Template 'child' not found for org 'grandchild'");
    let missing = vec![("lone".to_string(), templated("nobody"))];
    assert_eq!(resolve_orgs(&missing).unwrap_err(), "Template 'nobody' not found for org 'lone'");
}

#[test]
fn untemplated_errors_come_first() {
    let mut broken = full("x");
    broken.owner = None;
    let raws = vec![("t".to_string(), templated("nobody")), ("x".to_string(), broken)];
    assert_eq!(resolve_orgs(&raws).unwrap_err(), "Org 'x' missing required field 'owner'");
}

#[test]
fn global_config_from_raw() {
    let raws = vec![("acme".to_string(), full("acme-owner"))];
    let ws = vec![("~/code/acme".to_string(), "acme".to_string()), ("/srv/x".to_string(), "x".to_string())];
    let g = GlobalConfig::from_raw(Some("acme".to_string()), SecretProvider::Pass, &raws, &ws, Some("/home/me"))
        .unwrap();
    assert_eq!(g.default_org.as_deref(), Some("acme"));
    assert_eq!(g.secret_provider, SecretProvider::Pass);
    assert_eq!(
        g.workspaces,
        vec![
            ("/home/me/code/acme".to_string(), "acme".to_string()),
            ("/srv/x".to_string(), "x".to_string()),
        ]
    );
    assert_eq!(org(&g, "acme").owner, "acme-owner");
    assert_eq!(g.org_names(), vec!["acme".to_string()]);
    assert_eq!(g.resolve_workspace("/home/me/code/acme/widget").as_deref(), Some("acme"));
    assert!(g.resolve_workspace("/elsewhere").is_none());
    assert_eq!(
        org(&g, "acme").origin_url("acme", "widget"),
        "git@github-acme:acme-owner/widget.git"
    );
}

#[test]
fn tilde_expansion() {
    assert_eq!(expand_tilde("~/x", Some("/home/me")), "/home/me/x");
    assert_eq!(expand_tilde("~", Some("/home/me")), "/home/me");
    assert_eq!(expand_tilde("~/x", None), "~/x");
    assert_eq!(expand_tilde("/abs", Some("/home/me")), "/abs");
}
