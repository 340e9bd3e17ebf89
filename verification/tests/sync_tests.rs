use hyperforge::services::symmetric_sync::{repos_differ, repos_for_forge, SyncOp, SymmetricSyncService};
use hyperforge::types::repo::Repo;
use hyperforge::types::{Forge, Visibility};

fn names(v: &[&Repo]) -> Vec<String> {
    v.iter().map(|r| r.name.clone()).collect()
}

#[test]
fn test_diff_empty_forges() {
    let service = SymmetricSyncService::new();
    let diff = service.diff(vec![], vec![], "testorg");
    assert_eq!(diff.ops.len(), 0);
    assert!(!diff.has_changes());
}

#[test]
fn test_diff_create_needed() {
    let service = SymmetricSyncService::new();
    let repo = Repo::new("new-repo", Forge::GitHub);
    let diff = service.diff(vec![repo], vec![], "testorg");
    assert_eq!(diff.to_create().len(), 1);
    assert_eq!(diff.to_create()[0].name, "new-repo");
    assert!(diff.has_changes());
}

#[test]
fn test_diff_update_needed() {
    let service = SymmetricSyncService::new();
    let repo_source = Repo::new("test-repo", Forge::GitHub).with_description("New description");
    let repo_target = Repo::new("test-repo", Forge::GitHub).with_description("Old description");
    let diff = service.diff(vec![repo_source], vec![repo_target], "testorg");
    assert_eq!(diff.to_update().len(), 1);
    assert_eq!(diff.to_update()[0].name, "test-repo");
    assert!(diff.has_changes());
}

#[test]
fn test_diff_delete_needed() {
    let service = SymmetricSyncService::new();
    let repo = Repo::new("old-repo", Forge::GitHub);
    let diff = service.diff(vec![], vec![repo], "testorg");
    assert_eq!(diff.to_delete().len(), 1);
    assert_eq!(diff.to_delete()[0].name, "old-repo");
    assert!(diff.has_changes());
}

#[test]
fn test_diff_in_sync() {
    let service = SymmetricSyncService::new();
    let repo = Repo::new("synced-repo", Forge::GitHub).with_description("Same description");
    let diff = service.diff(vec![repo.clone()], vec![repo], "testorg");
    assert_eq!(diff.in_sync().len(), 1);
    assert_eq!(diff.in_sync()[0].name, "synced-repo");
    assert!(!diff.has_changes());
}

#[test]
fn test_repos_differ_description() {
    let repo1 = Repo::new("test", Forge::GitHub).with_description("Desc 1");
    let repo2 = Repo::new("test", Forge::GitHub).with_description("Desc 2");
    assert!(repos_differ(&repo1, &repo2));
}

#[test]
fn test_repos_differ_visibility() {
    let repo1 = Repo::new("test", Forge::GitHub).with_visibility(Visibility::Public);
    let repo2 = Repo::new("test", Forge::GitHub).with_visibility(Visibility::Private);
    assert!(repos_differ(&repo1, &repo2));
}

#[test]
fn test_repos_same() {
    let repo1 = Repo::new("test", Forge::GitHub).with_description("Same");
    let repo2 = Repo::new("test", Forge::GitHub).with_description("Same");
    assert!(!repos_differ(&repo1, &repo2));
}

#[test]
fn test_diff_staged_for_deletion_on_target() {
    let service = SymmetricSyncService::new();
    let repo = Repo::new("dying-repo", Forge::GitHub).with_staged_for_deletion(true);
    let target_repo = Repo::new("dying-repo", Forge::GitHub);
    let diff = service.diff(vec![repo], vec![target_repo], "testorg");
    assert_eq!(diff.to_delete().len(), 1);
    assert_eq!(diff.to_delete()[0].name, "dying-repo");
    assert_eq!(diff.to_create().len(), 0);
}

#[test]
fn test_diff_staged_for_deletion_not_on_target() {
    let service = SymmetricSyncService::new();
    let repo = Repo::new("already-gone", Forge::GitHub).with_staged_for_deletion(true);
    let diff = service.diff(vec![repo], vec![], "testorg");
    assert_eq!(diff.ops.len(), 0);
}

/// What an empty target forge holds after syncing `all` to the forge
/// named `forge`: the repos the diff creates there.
fn synced_names(all: &Vec<Repo>, forge: &str) -> Vec<String> {
    let service = SymmetricSyncService::new();
    let mine = repos_for_forge(all, forge).unwrap();
    let diff = service.diff(mine, vec![], "testorg");
    names(&diff.to_create())
}

#[test]
fn test_sync_with_origins_filters_by_forge() {
    let repo1 = Repo::new("github-only", Forge::GitHub);
    let repo2 = Repo::new("codeberg-only", Forge::Codeberg);
    let repo3 = Repo::new("github-mirrored", Forge::GitHub).with_mirror(Forge::Codeberg);
    let all = vec![repo1, repo2, repo3];

    let github_names = synced_names(&all, "github");
    assert_eq!(github_names.len(), 2);
    assert!(github_names.contains(&"github-only".to_string()));
    assert!(github_names.contains(&"github-mirrored".to_string()));

    let codeberg_names = synced_names(&all, "codeberg");
    assert_eq!(codeberg_names.len(), 2);
    assert!(codeberg_names.contains(&"codeberg-only".to_string()));
    assert!(codeberg_names.contains(&"github-mirrored".to_string()));
}

#[test]
fn test_sync_with_origins_respects_mirrors() {
    let repo = Repo::new("multi-mirror", Forge::GitHub).with_mirrors(vec![Forge::Codeberg, Forge::GitLab]);
    let all = vec![repo];
    assert_eq!(synced_names(&all, "github").len(), 1);
    assert_eq!(synced_names(&all, "codeberg").len(), 1);
    assert_eq!(synced_names(&all, "gitlab").len(), 1);
}

#[test]
fn test_sync_with_origins_no_cross_contamination() {
    let repo1 = Repo::new("github-repo", Forge::GitHub);
    let repo2 = Repo::new("codeberg-repo", Forge::Codeberg);
    let all = vec![repo1, repo2];

    let github_names = synced_names(&all, "github");
    assert_eq!(github_names.len(), 1);
    assert_eq!(github_names[0], "github-repo");

    let codeberg_names = synced_names(&all, "codeberg");
    assert_eq!(codeberg_names.len(), 1);
    assert_eq!(codeberg_names[0], "codeberg-repo");
}

#[test]
fn repos_for_forge_skips_unknown_forge_and_staged_repos() {
    let keep = Repo::new("keep", Forge::GitLab);
    let staged = Repo::new("staged", Forge::GitLab).with_staged_for_deletion(true);
    let all = vec![keep, staged];
    assert!(repos_for_forge(&all, "sourcehut").is_none());
    let mine = repos_for_forge(&all, "GitLab").unwrap();
    assert_eq!(mine.len(), 1);
    assert_eq!(mine[0].name, "keep");
    assert!(repos_for_forge(&all, "github").unwrap().is_empty());
}

#[test]
fn diff_orders_source_then_leftover_target() {
    let service = SymmetricSyncService::new();
    let source = vec![
        Repo::new("b", Forge::GitHub),
        Repo::new("a", Forge::GitHub).with_visibility(Visibility::Private),
        Repo::new("c", Forge::GitHub),
    ];
    let target = vec![
        Repo::new("z", Forge::GitHub),
        Repo::new("a", Forge::GitHub),
        Repo::new("c", Forge::GitHub),
        Repo::new("y", Forge::GitHub),
    ];
    let diff = service.diff(source, target, "org");
    assert_eq!(diff.org, "org");
    let got: Vec<(String, SyncOp)> = diff.ops.iter().map(|o| (o.repo.name.clone(), o.op)).collect();
    assert_eq!(
        got,
        vec![
            ("b".to_string(), SyncOp::Create),
            ("a".to_string(), SyncOp::Update),
            ("c".to_string(), SyncOp::InSync),
            ("z".to_string(), SyncOp::Delete),
            ("y".to_string(), SyncOp::Delete),
        ]
    );
}

#[test]
fn diff_target_duplicate_name_uses_last_and_second_source_is_created() {
    let service = SymmetricSyncService::new();
    let source = vec![
        Repo::new("r", Forge::GitHub).with_description("two"),
        Repo::new("r", Forge::GitHub).with_description("two"),
    ];
    let target = vec![
        Repo::new("r", Forge::GitHub).with_description("one"),
        Repo::new("r", Forge::GitHub).with_description("two"),
    ];
    let diff = service.diff(source, target, "org");
    let ops: Vec<SyncOp> = diff.ops.iter().map(|o| o.op).collect();
    assert_eq!(ops, vec![SyncOp::InSync, SyncOp::Create]);
}

#[test]
fn diff_of_listing_with_itself_is_all_in_sync() {
    let service = SymmetricSyncService::new();
    let listing = vec![
        Repo::new("one", Forge::GitHub).with_description("d"),
        Repo::new("two", Forge::Codeberg).with_visibility(Visibility::Private),
    ];
    let diff = service.diff(listing.clone(), listing, "org");
    assert_eq!(diff.ops.len(), 2);
    assert!(diff.ops.iter().all(|o| o.op == SyncOp::InSync));
}
