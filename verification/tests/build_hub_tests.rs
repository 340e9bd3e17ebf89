use hyperforge::v5::build::dist::{default_dist_toml, dist_toml_path};
use hyperforge::doc::DocValue;
use hyperforge::v5::build_hub::{
    brew_formula_path, bump_commit_message, bump_kind_or_target, cmd_check, direct_publish_command, dry_run_flag,
    missing_token, name_mismatch, publish_outcome, publish_secret_key, release_branch, resolve_single_repo_dir,
    validate_outcome, version_tag, workspace_members, BuildEvent, MemberTally, RepoRefWire,
};
use hyperforge::v5::config::{FsPath, OrgName, RepoName, RepoRef, WorkspaceConfig, WorkspaceName, WorkspaceRepo};

fn ws(name: &str, path: &str, repos: Vec<WorkspaceRepo>) -> WorkspaceConfig {
    WorkspaceConfig { name: WorkspaceName(name.to_string()), path: FsPath(path.to_string()), repos }
}

fn object(org: &str, name: &str, dir: &str) -> WorkspaceRepo {
    WorkspaceRepo::Object {
        reference: RepoRef { org: OrgName(org.to_string()), name: RepoName(name.to_string()) },
        dir: dir.to_string(),
    }
}

fn rref(org: &str, name: &str) -> RepoRefWire {
    RepoRefWire { org: org.to_string(), name: name.to_string() }
}

fn error_of(e: &BuildEvent) -> (String, String) {
    match e {
        BuildEvent::Error { code, message } => (code.clone().unwrap_or_default(), message.clone()),
        other => panic!("unexpected {other:?}"),
    }
}

#[test]
fn members_of_workspace() {
    let w = ws(
        "main",
        "/src",
        vec![
            WorkspaceRepo::Shorthand("acme/widget".to_string()),
            WorkspaceRepo::Shorthand("no-slash".to_string()),
            object("acme", "gadget", "gadget-checkout"),
            WorkspaceRepo::Shorthand("acme/a/b".to_string()),
        ],
    );
    let members = workspace_members(Some(&w), "main").unwrap();
    let got: Vec<(String, String, String)> =
        members.iter().map(|(r, d)| (r.org.clone(), r.name.clone(), d.clone())).collect();
    assert_eq!(
        got,
        vec![
            ("acme".to_string(), "widget".to_string(), "/src/widget".to_string()),
            ("acme".to_string(), "gadget".to_string(), "/src/gadget-checkout".to_string()),
            ("acme".to_string(), "a/b".to_string(), "/src/a/b".to_string()),
        ]
    );
    assert_eq!(workspace_members(None, "gone").unwrap_err(), "workspace 'gone' not found");
}

#[test]
fn single_repo_dir_takes_first_listing() {
    let wss = vec![
        ws("one", "/w1", vec![WorkspaceRepo::Shorthand("acme/other".to_string())]),
        ws("two", "/w2/", vec![object("acme", "tool", "tool-dir")]),
        ws("three", "/w3", vec![WorkspaceRepo::Shorthand("acme/tool".to_string())]),
    ];
    assert_eq!(resolve_single_repo_dir(&wss, "acme", "tool").unwrap(), "/w2/tool-dir");
    assert_eq!(resolve_single_repo_dir(&wss, "acme", "other").unwrap(), "/w1/other");
    assert_eq!(resolve_single_repo_dir(&wss, "acme", "missing").unwrap_err(), "no workspace lists acme/missing");
}

#[test]
fn validate_outcome_counts() {
    match validate_outcome("main".to_string(), 3, 0) {
        BuildEvent::ValidateOk { name, total } => assert_eq!((name.as_str(), total), ("main", 3)),
        other => panic!("unexpected {other:?}"),
    }
    match validate_outcome("main".to_string(), 3, 2) {
        BuildEvent::ValidateFailed { total, failed, .. } => assert_eq!((total, failed), (3, 2)),
        other => panic!("unexpected {other:?}"),
    }
}

#[test]
fn name_mismatch_only_when_named_differently() {
    assert!(name_mismatch(rref("acme", "widget"), "widget".to_string()).is_none());
    assert!(name_mismatch(rref("acme", "widget"), String::new()).is_none());
    match name_mismatch(rref("acme", "widget"), "widget-rs".to_string()) {
        Some(BuildEvent::NameMismatch { reference, manifest_name }) => {
            assert_eq!(reference.name, "widget");
            assert_eq!(manifest_name, "widget-rs");
        }
        other => panic!("unexpected {other:?}"),
    }
}

#[test]
fn bump_target_precedence() {
    assert_eq!(bump_kind_or_target(Some("2.0.0"), Some("minor")), "2.0.0");
    assert_eq!(bump_kind_or_target(None, Some("minor")), "minor");
    assert_eq!(bump_kind_or_target(None, None), "patch");
    assert_eq!(bump_commit_message("1.2.3"), "chore: bump version to 1.2.3");
    assert_eq!(version_tag("1.2.3"), "v1.2.3");
}

#[test]
fn direct_publish_channels() {
    assert_eq!(publish_secret_key("crates.io").unwrap(), "cargo/token");
    assert_eq!(publish_secret_key("npm").unwrap(), "npm/token");
    assert_eq!(publish_secret_key("pypi").unwrap(), "pypi/token");
    let e = publish_secret_key("hackage").unwrap_err();
    assert_eq!(error_of(&e), ("unknown_channel".to_string(), "hackage".to_string()));
    assert_eq!(
        error_of(&missing_token("npm/token")),
        ("missing_token".to_string(), "no secret at secrets://npm/token".to_string())
    );
    assert_eq!(
        direct_publish_command("crates.io", "tok").unwrap(),
        "CARGO_REGISTRY_TOKEN='tok' cargo publish"
    );
    assert_eq!(direct_publish_command("npm", "a'b").unwrap(), "NPM_TOKEN='a'\\''b' npm publish");
    assert_eq!(
        direct_publish_command("pypi", "t").unwrap(),
        "TWINE_USERNAME=__token__ TWINE_PASSWORD='t' twine upload dist/*"
    );
    assert!(direct_publish_command("hackage", "t").is_none());
    for ch in ["crates.io", "npm", "pypi"] {
        assert!(!direct_publish_command(ch, "t").unwrap().contains("--allow-dirty"));
    }
}

#[test]
fn publish_outcome_by_exit_status() {
    match publish_outcome(rref("acme", "widget"), "npm".to_string(), 0, "") {
        BuildEvent::PackagePublished { reference, channel } => {
            assert_eq!(reference.name, "widget");
            assert_eq!(channel, "npm");
        }
        other => panic!("unexpected {other:?}"),
    }
    let e = publish_outcome(rref("acme", "widget"), "npm".to_string(), 101, "boom");
    assert_eq!(error_of(&e), ("publish_failed".to_string(), "exit 101: boom".to_string()));
    let e = publish_outcome(rref("acme", "widget"), "npm".to_string(), -1, "sig");
    assert_eq!(error_of(&e).1, "exit -1: sig");
}

#[test]
fn release_branch_defaults_to_main() {
    assert_eq!(release_branch(Some("dev".to_string())), "dev");
    assert_eq!(release_branch(None), "main");
}

#[test]
fn cmd_must_be_given() {
    assert!(cmd_check("ls").is_none());
    let e = cmd_check("").unwrap();
    assert_eq!(error_of(&e), ("validation".to_string(), "missing required parameter 'cmd'".to_string()));
}

#[test]
fn dry_run_parameter_forms() {
    assert!(dry_run_flag(Some(&DocValue::Bool(true))));
    assert!(!dry_run_flag(Some(&DocValue::Bool(false))));
    assert!(dry_run_flag(Some(&DocValue::Str("yes".to_string()))));
    assert!(dry_run_flag(Some(&DocValue::Str("1".to_string()))));
    assert!(!dry_run_flag(Some(&DocValue::Str("no".to_string()))));
    assert!(!dry_run_flag(Some(&DocValue::Int(1))));
    assert!(!dry_run_flag(None));
}

#[test]
fn brew_formula_location() {
    assert_eq!(brew_formula_path(Some("me/homebrew-tap"), "tool"), "me/homebrew-tap/tool.rb");
    assert_eq!(brew_formula_path(None, "tool"), "./tool.rb");
}

#[test]
fn member_tally_summaries() {
    let mut t = MemberTally::new(3);
    t.ran(0);
    t.ran(2);
    t.failed();
    match t.exec_summary("main".to_string()) {
        BuildEvent::ExecSummary { name, total, ok, errored } => {
            assert_eq!((name.as_str(), total, ok, errored), ("main", 3, 1, 2));
        }
        other => panic!("unexpected {other:?}"),
    }
    let mut r = MemberTally::new(2);
    r.succeeded();
    match r.release_summary("main".to_string()) {
        BuildEvent::ReleaseSummary { total, ok, errored, .. } => assert_eq!((total, ok, errored), (2, 1, 0)),
        other => panic!("unexpected {other:?}"),
    }
}

#[test]
fn dist_toml_location_and_template() {
    assert_eq!(dist_toml_path("/src/widget"), "/src/widget/.hyperforge/dist.toml");
    let t = default_dist_toml();
    assert!(t.starts_with("# Hyperforge dist.toml \u{2014} distribution metadata"));
    assert!(t.contains("[dist]\n"));
    assert!(t.contains("channels = []\n"));
    assert!(t.ends_with("[binary]\n# Name of the shipped binary(ies), if any.\nnames = []\n"));
}
