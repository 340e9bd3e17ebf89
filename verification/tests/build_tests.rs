use hyperforge::v5::build::dist::brew_formula;
use hyperforge::v5::build::manifest::{analyze, build_publish_order, Dep, Finding, PackageManifest};
use hyperforge::v5::build::preflight::{
    canary_message, consumer_pins, dirty_worktree_finding, req_admits, unpushed_finding,
    version_regression_finding,
};
use hyperforge::v5::build::registry::{compare_versions, diff_status, parse_cabal_field};
use hyperforge::v5::build::release::{
    bump_cabal_file, bump_cargo_toml, parse_cabal_version, publish_command, secret_key_for_channel, shell_escape,
};

fn pkg(name: &str, deps: &[&str]) -> PackageManifest {
    PackageManifest {
        kind: "cargo".into(),
        name: name.into(),
        version: "0.1.0".into(),
        deps: deps
            .iter()
            .map(|d| Dep { name: (*d).into(), version: "*".into(), source: "cargo".into() })
            .collect(),
    }
}

#[test]
fn analyze_spots_version_mismatch() {
    let a = PackageManifest {
        kind: "cargo".into(),
        name: "a".into(),
        version: "0.1.0".into(),
        deps: vec![Dep { name: "serde".into(), version: "1.0.200".into(), source: "cargo".into() }],
    };
    let b = PackageManifest {
        kind: "cargo".into(),
        name: "b".into(),
        version: "0.1.0".into(),
        deps: vec![Dep { name: "serde".into(), version: "1.0.150".into(), source: "cargo".into() }],
    };
    let findings = analyze(&[a, b]);
    assert!(findings
        .iter()
        .any(|f| matches!(f, Finding::VersionMismatch { dep, .. } if dep == "serde")));
}

#[test]
fn test_topo_sort_linear() {
    let manifests = vec![pkg("A", &["B"]), pkg("B", &["C"]), pkg("C", &[])];
    let tiers = build_publish_order(&manifests).unwrap();
    assert_eq!(tiers.len(), 3);
    assert_eq!(tiers[0], vec!["C"]);
    assert_eq!(tiers[1], vec!["B"]);
    assert_eq!(tiers[2], vec!["A"]);
}

#[test]
fn test_topo_sort_diamond() {
    let manifests = vec![
        pkg("A", &["B", "C"]),
        pkg("B", &["D"]),
        pkg("C", &["D"]),
        pkg("D", &[]),
    ];
    let tiers = build_publish_order(&manifests).unwrap();
    assert_eq!(tiers.len(), 3);
    assert_eq!(tiers[0], vec!["D"]);
    assert_eq!(tiers[1], vec!["B", "C"]);
    assert_eq!(tiers[2], vec!["A"]);
}

#[test]
fn test_topo_sort_independent() {
    let manifests = vec![pkg("A", &[]), pkg("B", &[]), pkg("C", &[])];
    let tiers = build_publish_order(&manifests).unwrap();
    assert_eq!(tiers.len(), 1);
    assert_eq!(tiers[0], vec!["A", "B", "C"]);
}

#[test]
fn test_topo_sort_cycle() {
    let manifests = vec![pkg("A", &["B"]), pkg("B", &["A"])];
    let result = build_publish_order(&manifests);
    assert!(result.is_err());
    let err = result.unwrap_err();
    assert!(err.contains("A"), "error should mention A: {err}");
    assert!(err.contains("B"), "error should mention B: {err}");
}

#[test]
fn test_topo_sort_mixed_workspace_external() {
    let manifests = vec![pkg("A", &["B", "reqwest"]), pkg("B", &[])];
    let tiers = build_publish_order(&manifests).unwrap();
    assert_eq!(tiers.len(), 2);
    assert_eq!(tiers[0], vec!["B"]);
    assert_eq!(tiers[1], vec!["A"]);
}

#[test]
fn clean_tree_passes() {
    assert!(dirty_worktree_finding("pkg", &[]).is_none());
}

#[test]
fn dirty_tree_names_files() {
    let f = dirty_worktree_finding("plexus-macros", &["src/lib.rs".into(), "README.md".into()])
        .unwrap();
    assert_eq!(f.code, "dirty_worktree");
    assert!(f.message.contains("src/lib.rs"));
    assert!(f.message.contains("README.md"));
    assert!(f.message.contains("plexus-macros"));
}

#[test]
fn dirty_tree_elides_beyond_cap() {
    let paths: Vec<String> = (0..15).map(|i| format!("f{i}.rs")).collect();
    let f = dirty_worktree_finding("pkg", &paths).unwrap();
    assert!(f.message.contains("(+5 more)"));
    assert!(f.message.contains("15 uncommitted path(s)"));
}

#[test]
fn regressed_version_refused() {
    let f = version_regression_finding("plexus-macros", "0.5.0", Some("0.5.5")).unwrap();
    assert_eq!(f.code, "version_regression");
    assert!(f.message.contains("0.5.0"));
    assert!(f.message.contains("0.5.5"));
}

#[test]
fn equal_version_passes_gate() {
    assert!(version_regression_finding("p", "1.2.3", Some("1.2.3")).is_none());
}

#[test]
fn ahead_version_passes_gate() {
    assert!(version_regression_finding("p", "0.6.0", Some("0.5.5")).is_none());
}

#[test]
fn unpublished_passes_gate() {
    assert!(version_regression_finding("p", "0.1.0", None).is_none());
}

#[test]
fn ahead_of_upstream_refused_naming_branch() {
    let f = unpushed_finding("plexus-core", Some("release/v0.5.3"), Some("github/main"), 17).unwrap();
    assert_eq!(f.code, "unpushed_commits");
    assert!(f.message.contains("release/v0.5.3"));
    assert!(f.message.contains("17"));
}

#[test]
fn no_upstream_refused() {
    let f = unpushed_finding("p", Some("feature/x"), None, 0).unwrap();
    assert_eq!(f.code, "unpushed_commits");
    assert!(f.message.contains("feature/x"));
    assert!(f.message.contains("no upstream"));
}

#[test]
fn level_with_upstream_passes() {
    assert!(unpushed_finding("p", Some("main"), Some("origin/main"), 0).is_none());
}

#[test]
fn behind_only_passes() {
    assert!(unpushed_finding("p", Some("main"), Some("origin/main"), 0).is_none());
}

fn mani(name: &str, deps: &[(&str, &str)]) -> PackageManifest {
    PackageManifest {
        kind: "cargo".into(),
        name: name.into(),
        version: "0.0.0".into(),
        deps: deps
            .iter()
            .map(|(n, v)| Dep { name: (*n).into(), version: (*v).into(), source: "cargo".into() })
            .collect(),
    }
}

#[test]
fn consumer_pin_report_flags_non_admitting_reqs() {
    let manifests = vec![
        mani("plexus-core", &[("plexus-macros", "0.5.0")]),
        mani("plexus-rpc", &[("plexus-macros", "0.6"), ("plexus-core", "0.5")]),
        mani("plexus-macros", &[]),
    ];
    let pins = consumer_pins("plexus-macros", "0.6.0", &manifests);
    assert_eq!(pins.len(), 2);
    let core = pins.iter().find(|p| p.consumer == "plexus-core").unwrap();
    assert_eq!(core.admits_new_version, Some(false));
    let rpc = pins.iter().find(|p| p.consumer == "plexus-rpc").unwrap();
    assert_eq!(rpc.admits_new_version, Some(true));
}

#[test]
fn req_admits_caret_semantics() {
    assert_eq!(req_admits("0.5.0", "0.5.5"), Some(true));
    assert_eq!(req_admits("0.5.0", "0.6.0"), Some(false));
    assert_eq!(req_admits("^0.5", "0.5.9"), Some(true));
    assert_eq!(req_admits("1.2", "1.9.0"), Some(true));
    assert_eq!(req_admits("1.2", "2.0.0"), Some(false));
    assert_eq!(req_admits("1.2.3", "1.2.2"), Some(false));
    assert_eq!(req_admits("0.5", "0.5.0"), Some(true));
    assert_eq!(req_admits(">=0.5, <0.7", "0.6.0"), None);
    assert_eq!(req_admits("*", "1.0.0"), None);
}

#[test]
fn canary_stub_names_packages_and_admits_being_a_stub() {
    let msg = canary_message(&["plexus-macros".into(), "plexus-core".into()]);
    assert!(msg.contains("plexus-macros, plexus-core"));
    assert!(msg.contains("stub"));
    assert!(msg.contains("plexus new"));
}

#[test]
fn test_compare_versions_equal() {
    assert_eq!(compare_versions("1.2.3", "1.2.3"), std::cmp::Ordering::Equal);
}

#[test]
fn test_compare_versions_ahead() {
    assert_eq!(compare_versions("0.5.0", "0.4.0"), std::cmp::Ordering::Greater);
    assert_eq!(compare_versions("1.0.0", "0.9.9"), std::cmp::Ordering::Greater);
    assert_eq!(compare_versions("2.0.0", "1.99.99"), std::cmp::Ordering::Greater);
}

#[test]
fn test_compare_versions_behind() {
    assert_eq!(compare_versions("0.4.0", "0.5.0"), std::cmp::Ordering::Less);
}

#[test]
fn test_compare_versions_different_lengths() {
    assert_eq!(compare_versions("1.2", "1.2.0"), std::cmp::Ordering::Equal);
    assert_eq!(compare_versions("1.2.1", "1.2"), std::cmp::Ordering::Greater);
}

#[test]
fn test_diff_status_unpublished() {
    assert_eq!(diff_status("0.1.0", None), "unpublished");
}

#[test]
fn test_diff_status_ahead() {
    assert_eq!(diff_status("0.5.0", Some("0.4.0")), "ahead");
}

#[test]
fn test_diff_status_stale() {
    assert_eq!(diff_status("0.3.0", Some("0.4.0")), "stale");
}

#[test]
fn test_diff_status_up_to_date() {
    assert_eq!(diff_status("1.0.0", Some("1.0.0")), "up_to_date");
}

#[test]
fn test_parse_cabal_field_name() {
    let content = "name:          plexus-synapse\nversion:       0.2.0.1\n";
    assert_eq!(parse_cabal_field(content, "name"), Some("plexus-synapse".into()));
    assert_eq!(parse_cabal_field(content, "version"), Some("0.2.0.1".into()));
}

#[test]
fn parse_cabal_version_basic() {
    let cabal = "name:           plexus-synapse\nversion:        0.2.0\nlicense:        MIT\n";
    assert_eq!(parse_cabal_version(cabal), Some("0.2.0".into()));
}

#[test]
fn parse_cabal_version_compact() {
    let cabal = "name: foo\nversion:1.0.0\n";
    assert_eq!(parse_cabal_version(cabal), Some("1.0.0".into()));
}

#[test]
fn parse_cabal_version_missing() {
    let cabal = "name: foo\nlicense: MIT\n";
    assert_eq!(parse_cabal_version(cabal), None);
}

#[test]
fn bump_cabal_patch() {
    let cabal = "name:           synapse\nversion:        0.2.0\nlicense:        MIT\n";
    let (old, new, out) = bump_cabal_file(cabal, "patch").unwrap();
    assert_eq!(old, "0.2.0");
    assert_eq!(new, "0.2.1");
    assert!(out.contains("version:        0.2.1"));
    assert!(out.contains("name:           synapse"));
    assert!(out.contains("license:        MIT"));
}

#[test]
fn bump_cabal_minor() {
    let cabal = "name: x\nversion: 1.4.7\n";
    let (_, new, _) = bump_cabal_file(cabal, "minor").unwrap();
    assert_eq!(new, "1.5.0");
}

#[test]
fn bump_cabal_exact_target() {
    let cabal = "name: x\nversion: 0.1.0\n";
    let (_, new, out) = bump_cabal_file(cabal, "3.0.0").unwrap();
    assert_eq!(new, "3.0.0");
    assert!(out.contains("version: 3.0.0"));
}

#[test]
fn bump_cabal_missing_version() {
    let cabal = "name: x\nlicense: MIT\n";
    assert!(bump_cabal_file(cabal, "patch").is_err());
}

#[test]
fn bump_cabal_preserves_trailing_newline() {
    let cabal = "name: x\nversion: 1.0.0\n";
    let (_, _, out) = bump_cabal_file(cabal, "patch").unwrap();
    assert!(out.ends_with('\n'));
}

#[test]
fn hackage_publish_command() {
    let cmd = publish_command("hackage", "tok123").unwrap();
    assert!(cmd.contains("cabal sdist"));
    assert!(cmd.contains("cabal upload --publish"));
    assert!(cmd.contains("--token="));
    assert!(cmd.contains("tok123"));
}

#[test]
fn crates_io_publish_command() {
    let cmd = publish_command("crates.io", "secret").unwrap();
    assert!(cmd.contains("CARGO_REGISTRY_TOKEN="));
    assert!(cmd.contains("cargo publish"));
}

#[test]
fn no_allow_dirty_in_any_publish_command() {
    for ch in ["crates.io", "npm", "pypi", "hackage"] {
        let cmd = publish_command(ch, "tok").unwrap();
        assert!(
            !cmd.contains("--allow-dirty"),
            "{ch} publish command still carries --allow-dirty: {cmd}"
        );
    }
}

#[test]
fn unknown_channel_returns_none() {
    assert!(publish_command("bogus", "x").is_none());
}

#[test]
fn secret_key_hackage() {
    assert_eq!(secret_key_for_channel("hackage"), Some("hackage/token"));
}

#[test]
fn secret_key_unknown() {
    assert_eq!(secret_key_for_channel("bogus"), None);
}

#[test]
fn shell_escape_single_quotes() {
    let escaped = shell_escape("it's a test");
    assert_eq!(escaped, "'it'\\''s a test'");
}

#[test]
fn brew_class_name_camel() {
    let f = brew_formula("my-tool", "1.2.3", "http://x", "deadbeef", "hello");
    assert!(f.starts_with("class MyTool < Formula"));
}

#[test]
fn bump_patch_works() {
    let raw = "[package]\nname = \"foo\"\nversion = \"0.1.2\"\n";
    let (old, new, out) = bump_cargo_toml(raw, "patch").unwrap();
    assert_eq!(old, "0.1.2");
    assert_eq!(new, "0.1.3");
    assert!(out.contains("version = \"0.1.3\""));
}

#[test]
fn bump_minor_resets_patch() {
    let raw = "[package]\nversion = \"1.4.7\"\n";
    let (_, new, _) = bump_cargo_toml(raw, "minor").unwrap();
    assert_eq!(new, "1.5.0");
}

#[test]
fn bump_exact_target() {
    let raw = "[package]\nversion = \"0.1.0\"\n";
    let (_, new, _) = bump_cargo_toml(raw, "2.0.0").unwrap();
    assert_eq!(new, "2.0.0");
}

#[test]
fn rejects_non_semver() {
    let raw = "[package]\nversion = \"not-a-version\"\n";
    assert!(bump_cargo_toml(raw, "patch").is_err());
}
