use hyperforge::types::package::{PackageType, VersionBump};
use hyperforge::types::registry::{ContainerRegistry, ImageRef};
use hyperforge::types::repo::Repo;
use hyperforge::types::{Forge, Visibility};

#[test]
fn test_package_type_from_str() {
    assert_eq!("crate".parse::<PackageType>().unwrap(), PackageType::Crate);
    assert_eq!("npm".parse::<PackageType>().unwrap(), PackageType::Npm);
    assert_eq!("python".parse::<PackageType>().unwrap(), PackageType::PyPi);
}

#[test]
fn test_package_type_defaults() {
    assert_eq!(PackageType::Crate.default_registry(), "crates.io");
    assert_eq!(PackageType::Crate.manifest_file(), "Cargo.toml");
    assert_eq!(PackageType::Crate.token_key(), "crates-token");
}

#[test]
fn test_version_bump_patch() {
    assert_eq!(VersionBump::Patch.apply("1.2.3").unwrap(), "1.2.4");
    assert_eq!(VersionBump::Patch.apply("0.0.0").unwrap(), "0.0.1");
    assert_eq!(VersionBump::Patch.apply("1.2.99").unwrap(), "1.2.100");
}

#[test]
fn test_version_bump_minor() {
    assert_eq!(VersionBump::Minor.apply("1.2.3").unwrap(), "1.3.0");
    assert_eq!(VersionBump::Minor.apply("0.0.5").unwrap(), "0.1.0");
    assert_eq!(VersionBump::Minor.apply("1.99.3").unwrap(), "1.100.0");
}

#[test]
fn test_version_bump_major() {
    assert_eq!(VersionBump::Major.apply("1.2.3").unwrap(), "2.0.0");
    assert_eq!(VersionBump::Major.apply("0.5.10").unwrap(), "1.0.0");
    assert_eq!(VersionBump::Major.apply("99.1.1").unwrap(), "100.0.0");
}

#[test]
fn test_version_bump_with_prerelease() {
    assert_eq!(VersionBump::Patch.apply("1.2.3-alpha").unwrap(), "1.2.4");
    assert_eq!(VersionBump::Minor.apply("1.2.3-beta.1").unwrap(), "1.3.0");
}

#[test]
fn test_version_bump_from_str() {
    assert_eq!("patch".parse::<VersionBump>().unwrap(), VersionBump::Patch);
    assert_eq!("MINOR".parse::<VersionBump>().unwrap(), VersionBump::Minor);
    assert_eq!("Major".parse::<VersionBump>().unwrap(), VersionBump::Major);
    assert!("invalid".parse::<VersionBump>().is_err());
}

#[test]
fn test_container_registry_from_forge() {
    assert_eq!(ContainerRegistry::from(Forge::GitHub), ContainerRegistry::Ghcr);
    assert_eq!(ContainerRegistry::from(Forge::Codeberg), ContainerRegistry::Codeberg);
    assert_eq!(ContainerRegistry::from(Forge::GitLab), ContainerRegistry::GitLab);
}

#[test]
fn test_container_registry_host() {
    assert_eq!(ContainerRegistry::Ghcr.host(), "ghcr.io");
    assert_eq!(ContainerRegistry::Codeberg.host(), "codeberg.org");
    assert_eq!(ContainerRegistry::GitLab.host(), "registry.gitlab.com");
    assert_eq!(ContainerRegistry::Custom("my.reg.io".into()).host(), "my.reg.io");
}

#[test]
fn test_image_ref_full_name() {
    let img = ImageRef::new(ContainerRegistry::Ghcr, "hypermemetic", "substrate", "v1.0");
    assert_eq!(img.full_name(), "ghcr.io/hypermemetic/substrate:v1.0");
    assert_eq!(img.local_name(), "substrate:v1.0");
}

#[test]
fn test_image_ref_custom_registry() {
    let img = ImageRef::new(
        ContainerRegistry::Custom("harbor.internal".into()),
        "team",
        "app",
        "latest",
    );
    assert_eq!(img.full_name(), "harbor.internal/team/app:latest");
}

#[test]
fn test_repo_new() {
    let repo = Repo::new("test-repo", Forge::GitHub);
    assert_eq!(repo.name, "test-repo");
    assert_eq!(repo.origin, Forge::GitHub);
    assert!(repo.mirrors.is_empty());
    assert!(!repo.protected);
}

#[test]
fn test_repo_builder() {
    let repo = Repo::new("my-app", Forge::GitHub)
        .with_description("My application")
        .with_visibility(Visibility::Private)
        .with_mirror(Forge::Codeberg)
        .with_protected(true);

    assert_eq!(repo.name, "my-app");
    assert_eq!(repo.description, Some("My application".to_string()));
    assert_eq!(repo.visibility, Visibility::Private);
    assert_eq!(repo.origin, Forge::GitHub);
    assert_eq!(repo.mirrors, vec![Forge::Codeberg]);
    assert!(repo.protected);
}

#[test]
fn test_repo_mirrors_excludes_origin() {
    let repo = Repo::new("test", Forge::GitHub)
        .with_mirrors(vec![Forge::GitHub, Forge::Codeberg, Forge::GitLab]);

    assert_eq!(repo.mirrors.len(), 2);
    assert!(repo.mirrors.contains(&Forge::Codeberg));
    assert!(repo.mirrors.contains(&Forge::GitLab));
    assert!(!repo.mirrors.contains(&Forge::GitHub));
}

#[test]
fn test_repo_all_forges() {
    let repo = Repo::new("test", Forge::GitHub).with_mirror(Forge::Codeberg);

    let all = repo.all_forges();
    assert_eq!(all.len(), 2);
    assert_eq!(all[0], Forge::GitHub);
    assert_eq!(all[1], Forge::Codeberg);
}
