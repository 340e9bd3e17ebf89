use hyperforge::services::symmetric_sync::{SymmetricSyncService, SyncOp};
use hyperforge::storage::org_storage::OrgStorage;
use hyperforge::storage::paths::HyperforgePaths;
use hyperforge::types::forge::{ForgeConfig, ForgeMap, ForgesConfig};
use hyperforge::types::repo::Repo;
use hyperforge::types::Forge;
use hyperforge::v5::adapters::ProviderVisibility;
use hyperforge::v5::build::registry::compare_versions;
use std::cmp::Ordering;

#[test]
fn selectors_cover_every_operation_once() {
    let service = SymmetricSyncService::new();
    let mut gone = Repo::new("gone", Forge::GitHub);
    gone.staged_for_deletion = true;
    let source = vec![
        Repo::new("new", Forge::GitHub),
        Repo::new("same", Forge::GitHub).with_description("d"),
        Repo::new("changed", Forge::GitHub).with_description("after"),
        gone,
    ];
    let target = vec![
        Repo::new("same", Forge::GitHub).with_description("d"),
        Repo::new("changed", Forge::GitHub).with_description("before"),
        Repo::new("gone", Forge::GitHub),
    ];
    let d = service.diff(source, target, "org");
    let total = d.to_create().len() + d.to_update().len() + d.to_delete().len() + d.in_sync().len();
    assert_eq!(total, d.ops.len());
    assert_eq!((d.to_create().len(), d.to_update().len(), d.to_delete().len(), d.in_sync().len()), (1, 1, 1, 1));
    assert!(d.has_changes());
}

#[test]
fn a_diff_in_sync_has_no_changes_and_empty_selectors() {
    let service = SymmetricSyncService::new();
    let r = Repo::new("same", Forge::GitHub).with_description("d");
    let d = service.diff(vec![r.clone()], vec![r], "org");
    assert!(!d.has_changes());
    assert!(d.to_create().is_empty() && d.to_update().is_empty() && d.to_delete().is_empty());
    assert_eq!(d.in_sync().len(), 1);
}

#[test]
fn visibility_names_parse_back() {
    for v in [ProviderVisibility::Public, ProviderVisibility::Private, ProviderVisibility::Internal] {
        assert_eq!(ProviderVisibility::parse(v.as_str()).unwrap(), v);
    }
}

#[test]
fn visibility_parse_ignores_case_and_surrounding_space() {
    assert_eq!(ProviderVisibility::parse("  PuBlIc \n").unwrap(), ProviderVisibility::Public);
    assert_eq!(ProviderVisibility::parse("INTERNAL").unwrap(), ProviderVisibility::Internal);
    let raw = " Private ";
    assert_eq!(ProviderVisibility::parse(raw).unwrap(), ProviderVisibility::parse(&raw.trim().to_ascii_uppercase()).unwrap());
    let bad = ProviderVisibility::parse(" Secret ").unwrap_err();
    assert_eq!(bad, "invalid visibility 'secret'; allowed: public, private, internal");
    assert_eq!(ProviderVisibility::parse(" Secret ").unwrap_err(), ProviderVisibility::parse("SECRET").unwrap_err());
}

#[test]
fn forge_queries_agree_in_both_forms() {
    let mut m = ForgeMap::new();
    m.insert(Forge::GitHub, ForgeConfig { sync: true });
    m.insert(Forge::GitLab, ForgeConfig { sync: false });
    let forms = [ForgesConfig::from_map(m), ForgesConfig::from_forges(vec![Forge::Codeberg, Forge::GitHub])];
    for c in forms.iter() {
        for f in [Forge::GitHub, Forge::Codeberg, Forge::GitLab] {
            assert_eq!(c.is_synced(&f), c.synced_forges().contains(&f));
            assert_eq!(c.contains(&f), c.all_forges().contains(&f));
            assert_eq!(c.get(&f).map(|g| g.sync), if c.contains(&f) { Some(c.is_synced(&f)) } else { None });
            if c.is_synced(&f) {
                assert!(c.contains(&f));
            }
        }
    }
}

#[test]
fn object_format_keeps_every_forge() {
    let legacy = ForgesConfig::from_forges(vec![Forge::GitLab, Forge::GitHub, Forge::GitLab]);
    let m = legacy.to_object_format();
    assert_eq!(m.keys(), vec![Forge::GitHub, Forge::GitLab]);
    assert!(m.get(Forge::GitHub).unwrap().sync && m.get(Forge::GitLab).unwrap().sync);
    assert!(m.get(Forge::Codeberg).is_none());
    let back = ForgesConfig::from_map(m);
    for f in [Forge::GitHub, Forge::Codeberg, Forge::GitLab] {
        assert_eq!(back.contains(&f), legacy.contains(&f));
        assert_eq!(back.is_synced(&f), legacy.is_synced(&f));
    }
}

#[test]
fn numeric_versions_compare_by_padded_numbers() {
    assert_eq!(compare_versions("1.10", "1.9"), Ordering::Greater);
    assert_eq!(compare_versions("1.2", "1.2.0"), Ordering::Equal);
    assert_eq!(compare_versions("1.2.0", "1.2"), Ordering::Equal);
    assert_eq!(compare_versions("0.9", "0.10"), compare_versions("0.10", "0.9").reverse());
    let (a, b, c) = ("1.2", "1.10.0", "2");
    assert_eq!(compare_versions(a, b), Ordering::Less);
    assert_eq!(compare_versions(b, c), Ordering::Less);
    assert_eq!(compare_versions(a, c), Ordering::Less);
}

#[test]
fn mixed_segments_are_not_transitive() {
    assert_eq!(compare_versions("2", "10"), Ordering::Less);
    assert_eq!(compare_versions("10", "1a"), Ordering::Less);
    assert_eq!(compare_versions("2", "1a"), Ordering::Greater);
}

#[test]
fn a_dry_run_sync_makes_no_calls() {
    let service = SymmetricSyncService::new();
    let d = service.diff(vec![Repo::new("new", Forge::GitHub)], vec![Repo::new("old", Forge::GitHub)], "org");
    assert!(d.calls(true).is_empty());
    let calls = d.calls(false);
    assert_eq!(calls.len(), 2);
    assert_eq!(calls[0].repo.name, "new");
    assert_eq!(calls[0].op, SyncOp::Create);
    assert_eq!(calls[1].repo.name, "old");
    assert_eq!(calls[1].op, SyncOp::Delete);
}

#[test]
fn sync_calls_skip_repos_in_sync() {
    let service = SymmetricSyncService::new();
    let r = Repo::new("same", Forge::GitHub);
    let d = service.diff(vec![r.clone()], vec![r], "org");
    assert!(d.calls(false).is_empty());
}

#[test]
fn needs_sync_compares_forge_sets() {
    let s = OrgStorage::new(HyperforgePaths::at("/tmp/hf"), "org".to_string());
    let desired = vec![Forge::GitHub, Forge::Codeberg];
    let synced_same = vec![Forge::Codeberg, Forge::GitHub, Forge::GitHub];
    let synced_less = vec![Forge::GitHub];
    assert!(!s.needs_sync(Some(&desired), Some(&synced_same)));
    assert!(s.needs_sync(Some(&desired), Some(&synced_less)));
    assert!(s.needs_sync(Some(&desired), None));
    assert!(!s.needs_sync(None, None));
    assert!(!s.needs_sync(Some(&vec![]), None));
}
