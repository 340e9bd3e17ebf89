use hyperforge::v5::build::manifest::{build_publish_order, Dep, PackageManifest};
use hyperforge::v5::build_hub::{
    drift_bump_manifest, drift_commit_message, glob_match, is_chosen, matches_any, passes_filter,
    publish_bump_kind, registry_to_channel, select_for_publish, selected_manifests, wait_after_tier,
    workspace_deps, BuildEvent, BumpManifest, DriftAction, DriftTally, PackageStart, PublishCandidate,
    PublishOutcome, PublishPhase, PublishPlan, PublishRun, RegistryTally,
};

fn cand(name: &str, status: &str, build_system: &str, registry: &str, deps: &[&str]) -> PublishCandidate {
    PublishCandidate {
        name: name.to_string(),
        local_version: "0.1.0".to_string(),
        build_system: build_system.to_string(),
        registry: registry.to_string(),
        status: status.to_string(),
        deps: deps.iter().map(|d| d.to_string()).collect(),
    }
}

fn step(e: &BuildEvent) -> (String, String, String, Option<String>) {
    match e {
        BuildEvent::PublishStep { package_name, version, action, error, .. } => {
            (package_name.clone(), version.clone(), action.clone(), error.clone())
        }
        other => panic!("not a publish step: {other:?}"),
    }
}

#[test]
fn glob_matching() {
    assert!(glob_match("plexus-*", "plexus-core"));
    assert!(glob_match("*", ""));
    assert!(glob_match("a?c", "abc"));
    assert!(!glob_match("a?c", "ac"));
    assert!(glob_match("*core*", "hyper-core-x"));
    assert!(!glob_match("core", "core2"));
    assert!(glob_match("a*b*c", "axxbyyc"));
    assert!(!glob_match("a*b*c", "axxbyy"));
    assert!(glob_match("**", "anything"));
    assert!(!glob_match("", "x"));
}

#[test]
fn filters_and_choice() {
    let pats = vec!["foo-*".to_string(), "bar".to_string()];
    assert!(matches_any(&pats, "bar"));
    assert!(!matches_any(&pats, "baz"));
    assert!(passes_filter(&None, "anything"));
    assert!(!passes_filter(&Some(pats.clone()), "baz"));
    assert!(is_chosen(&None, &Some(vec!["foo-x".to_string()]), "foo-y"));
    assert!(!is_chosen(&Some(pats.clone()), &Some(vec!["foo-x".to_string()]), "foo-x"));
}

#[test]
fn selection_pulls_in_transitive_deps() {
    let cs = vec![
        cand("app", "ahead", "cargo", "crates_io", &["lib"]),
        cand("lib", "up_to_date", "cargo", "crates_io", &["core"]),
        cand("core", "stale", "cargo", "crates_io", &[]),
        cand("other", "ahead", "cargo", "crates_io", &[]),
    ];
    let mut sel = select_for_publish(&cs, &Some(vec!["app".to_string()]), &None);
    sel.sort();
    assert_eq!(sel, vec!["app".to_string(), "core".to_string(), "lib".to_string()]);
    let all = select_for_publish(&cs, &None, &Some(vec!["other".to_string()]));
    assert_eq!(all.len(), 3);
    assert!(!all.contains(&"other".to_string()));
}

#[test]
fn workspace_deps_and_selected_manifests() {
    let deps = vec![
        Dep { name: "serde".into(), version: "1".into(), source: "cargo".into() },
        Dep { name: "lib".into(), version: "0.1".into(), source: "cargo".into() },
    ];
    let names = vec!["app".to_string(), "lib".to_string()];
    assert_eq!(workspace_deps(&deps, &names), vec!["lib".to_string()]);
    let ms = vec![
        PackageManifest { kind: "cargo".into(), name: "app".into(), version: "1".into(), deps: deps.clone() },
        PackageManifest { kind: "cargo".into(), name: "lib".into(), version: "1".into(), deps: vec![] },
        PackageManifest { kind: "cargo".into(), name: "skip".into(), version: "1".into(), deps: vec![] },
    ];
    let chosen = selected_manifests(&ms, &names);
    let got: Vec<&str> = chosen.iter().map(|m| m.name.as_str()).collect();
    assert_eq!(got, vec!["app", "lib"]);
    let tiers = build_publish_order(&chosen).unwrap();
    assert_eq!(tiers, vec![vec!["lib".to_string()], vec!["app".to_string()]]);
}

#[test]
fn bump_kind_and_channels() {
    assert_eq!(publish_bump_kind(None).unwrap(), "patch");
    assert_eq!(publish_bump_kind(Some("major")).unwrap(), "major");
    match publish_bump_kind(Some("huge")) {
        Err(BuildEvent::Error { code, message }) => {
            assert_eq!(code.as_deref(), Some("validation"));
            assert_eq!(message, "invalid bump kind: huge");
        }
        other => panic!("unexpected {other:?}"),
    }
    assert_eq!(registry_to_channel("crates_io"), "crates.io");
    assert_eq!(registry_to_channel("hackage"), "hackage");
    assert_eq!(registry_to_channel("npm"), "npm");
}

#[test]
fn dry_run_publish_flow() {
    let mut run = PublishRun::new(None, None, None);
    assert!(run.dry_run());
    let lib = cand("lib", "up_to_date", "cargo", "crates_io", &[]);
    let app = cand("app", "ahead", "cargo", "crates_io", &["lib"]);
    match run.begin("lib", Some(&lib)) {
        PackageStart::Skip(e) => assert_eq!(step(&e).2, "skip"),
        other => panic!("unexpected {other:?}"),
    }
    match run.begin("app", Some(&app)) {
        PackageStart::Bump(BumpManifest::Cargo) => {}
        other => panic!("unexpected {other:?}"),
    }
    assert_eq!(run.phase(), PublishPhase::Bumping);
    assert!(!run.writes_bumped_manifest());
    let follow = run.bumped(Ok("0.1.1".to_string())).unwrap();
    assert_eq!(step(&follow.event), ("app".into(), "0.1.1".into(), "auto_bump".into(), None));
    assert_eq!(run.publish_plan(), PublishPlan::Rehearse);
    assert!(follow.commit_message.is_none());
    assert!(follow.tag.is_none());
    let e = run.finish(PublishOutcome::Rehearsed);
    assert_eq!(step(&e), ("app".into(), "0.1.1".into(), "publish".into(), None));
    match run.begin("ghost", None) {
        PackageStart::Unknown => {}
        other => panic!("unexpected {other:?}"),
    }
    match run.summary() {
        BuildEvent::PublishSummary { total, published, failed, skipped, auto_bumped } => {
            assert_eq!((total, published, failed, skipped, auto_bumped), (3, 1, 0, 1, 1));
        }
        other => panic!("unexpected {other:?}"),
    }
}

#[test]
fn real_publish_failure_fails_later_tiers() {
    let mut run = PublishRun::new(Some(true), Some(false), Some(false));
    let core = cand("core", "unpublished", "cargo", "crates_io", &[]);
    let web = cand("web", "ahead", "node", "npm", &["core"]);
    match run.begin("core", Some(&core)) {
        PackageStart::Bump(BumpManifest::Cargo) => {}
        other => panic!("unexpected {other:?}"),
    }
    assert!(run.writes_bumped_manifest());
    let follow = run.bumped(Ok("1.0.0".to_string())).unwrap();
    assert_eq!(run.publish_plan(), PublishPlan::ResolveSecret("cargo/token"));
    assert_eq!(run.command_for("tok").as_deref(), Some("CARGO_REGISTRY_TOKEN='tok' cargo publish"));
    assert_eq!(follow.commit_message.as_deref(), Some("chore: bump core to 1.0.0"));
    assert_eq!(follow.tag.as_deref(), Some("core-v1.0.0"));
    assert_eq!(run.channel(), "crates.io");
    let e = run.finish(PublishOutcome::Exited { code: 101, stderr: "  denied\n".to_string() });
    assert_eq!(step(&e), ("core".into(), "1.0.0".into(), "failed".into(), Some("exit 101: denied".into())));
    assert!(run.failed_in_tier());
    assert!(!run.tier_failed());
    run.end_tier();
    assert!(run.tier_failed());
    assert!(!run.failed_in_tier());
    match run.begin("web", Some(&web)) {
        PackageStart::EarlierTierFailed(e) => {
            assert_eq!(step(&e).3.as_deref(), Some("dependency in earlier tier failed"));
        }
        other => panic!("unexpected {other:?}"),
    }
    match run.summary() {
        BuildEvent::PublishSummary { total, published, failed, .. } => assert_eq!((total, published, failed), (2, 0, 2)),
        other => panic!("unexpected {other:?}"),
    }
}

#[test]
fn publish_outcome_messages() {
    let c = cand("p", "ahead", "node", "npm", &[]);
    for (outcome, expected) in [
        (PublishOutcome::UnknownChannel, "unknown channel: npm"),
        (PublishOutcome::MissingSecret("npm/token".to_string()), "no secret at secrets://npm/token"),
        (PublishOutcome::BadSecretRef("bad ref".to_string()), "bad ref"),
        (PublishOutcome::NoCommand, "no publish command for channel: npm"),
        (PublishOutcome::RunFailed("spawn".to_string()), "spawn"),
    ] {
        let mut run = PublishRun::new(Some(true), None, None);
        match run.begin("p", Some(&c)) {
            PackageStart::Publish => {}
            other => panic!("unexpected {other:?}"),
        }
        let e = run.finish(outcome);
        assert_eq!(step(&e).3.as_deref(), Some(expected));
    }
    let mut ok = PublishRun::new(Some(true), None, None);
    let _ = ok.begin("p", Some(&c));
    let e = ok.finish(PublishOutcome::Exited { code: 0, stderr: String::new() });
    assert_eq!(step(&e).2, "publish");
}

#[test]
fn failed_bump_reports_error() {
    let mut run = PublishRun::new(Some(true), None, None);
    let c = cand("h", "stale", "cabal", "hackage", &[]);
    match run.begin("h", Some(&c)) {
        PackageStart::Bump(BumpManifest::Cabal) => {}
        other => panic!("unexpected {other:?}"),
    }
    match run.bumped(Err("no .cabal file found".to_string())) {
        Err(e) => assert_eq!(step(&e), ("h".into(), "0.1.0".into(), "failed".into(), Some("bump failed: no .cabal file found".into()))),
        Ok(_) => panic!("bump should fail"),
    }
    assert_eq!(run.phase(), PublishPhase::Idle);
}

#[test]
fn waits_only_after_real_crates_io_tiers() {
    let cs = vec![cand("a", "ahead", "cargo", "crates_io", &[]), cand("n", "ahead", "node", "npm", &[])];
    let real = PublishRun::new(Some(true), None, None);
    let dry = PublishRun::new(None, None, None);
    assert!(wait_after_tier(&real, 0, 2, &vec!["a".to_string()], &cs));
    assert!(!wait_after_tier(&real, 1, 2, &vec!["a".to_string()], &cs));
    assert!(!wait_after_tier(&real, 0, 2, &vec!["n".to_string()], &cs));
    assert!(!wait_after_tier(&dry, 0, 2, &vec!["a".to_string()], &cs));
}

#[test]
fn registry_tally_counts_statuses() {
    let mut t = RegistryTally::new();
    let e = t.record("a", "cargo", "0.2.0", Some("0.1.0"), "crates_io");
    match e {
        BuildEvent::RegistryDiffEntry { status, published_version, .. } => {
            assert_eq!(status, "ahead");
            assert_eq!(published_version.as_deref(), Some("0.1.0"));
        }
        other => panic!("unexpected {other:?}"),
    }
    let _ = t.record("b", "npm", "1.0.0", None, "npm");
    let _ = t.query_failed("registry_http", "boom".to_string());
    match t.summary("ws".to_string()) {
        BuildEvent::RegistryDiffSummary { total, ahead, unpublished, errored, stale, up_to_date, .. } => {
            assert_eq!((total, ahead, unpublished, errored, stale, up_to_date), (3, 1, 1, 1, 0, 0));
        }
        other => panic!("unexpected {other:?}"),
    }
}

#[test]
fn drift_tally_and_messages() {
    let mut d = DriftTally::new(Some(false));
    assert_eq!(d.step(Some("up_to_date")), DriftAction::WriteAndCommit);
    assert_eq!(d.step(Some("ahead")), DriftAction::Skip);
    assert_eq!(d.step(None), DriftAction::Skip);
    d.fixed_one();
    match d.summary() {
        BuildEvent::DriftSummary { total_checked, drifted, fixed, dry_run } => {
            assert_eq!((total_checked, drifted, fixed, dry_run), (3, 1, 1, false));
        }
        other => panic!("unexpected {other:?}"),
    }
    let mut dry = DriftTally::new(None);
    assert!(dry.dry_run());
    assert_eq!(dry.step(Some("up_to_date")), DriftAction::ReportOnly);
    match dry.summary() {
        BuildEvent::DriftSummary { total_checked, drifted, fixed, dry_run } => {
            assert_eq!((total_checked, drifted, fixed, dry_run), (1, 1, 0, true))
        }
        other => panic!("unexpected {other:?}"),
    }
    assert_eq!(drift_commit_message("p", "0.1.0", "0.1.1"), "chore: bump p 0.1.0 \u{2192} 0.1.1 (drift)");
    assert!(matches!(drift_bump_manifest("cabal"), Ok(BumpManifest::Cabal)));
    match drift_bump_manifest("node") {
        Err(BuildEvent::Error { code, message }) => {
            assert_eq!(code.as_deref(), Some("unsupported"));
            assert_eq!(message, "auto-bump not supported for build system 'node'");
        }
        other => panic!("unexpected {other:?}"),
    }
}

#[test]
fn failure_leaves_the_rest_of_its_tier_running() {
    let mut run = PublishRun::new(Some(true), Some(false), Some(false));
    let a = cand("a", "ahead", "node", "npm", &[]);
    let b = cand("b", "ahead", "node", "npm", &[]);
    let c = cand("c", "ahead", "node", "npm", &["a"]);
    match run.begin("a", Some(&a)) {
        PackageStart::Publish => {}
        other => panic!("unexpected {other:?}"),
    }
    let e = run.finish(PublishOutcome::Exited { code: 1, stderr: "boom".to_string() });
    assert_eq!(step(&e).2, "failed");
    match run.begin("b", Some(&b)) {
        PackageStart::Publish => {}
        other => panic!("a failure in its own tier must not fail b: {other:?}"),
    }
    let e = run.finish(PublishOutcome::Exited { code: 0, stderr: String::new() });
    assert_eq!(step(&e).2, "publish");
    run.end_tier();
    match run.begin("c", Some(&c)) {
        PackageStart::EarlierTierFailed(e) => {
            assert_eq!(step(&e).3.as_deref(), Some("dependency in earlier tier failed"));
        }
        other => panic!("unexpected {other:?}"),
    }
    match run.summary() {
        BuildEvent::PublishSummary { total, published, failed, .. } => assert_eq!((total, published, failed), (3, 1, 2)),
        other => panic!("unexpected {other:?}"),
    }
}
