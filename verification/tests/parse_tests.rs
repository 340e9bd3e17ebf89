use hyperforge::v5::adapters::ForgePortError;
use hyperforge::v5::build::manifest::{
    parse_cargo_str, parse_manifest_text, parse_npm_str, parse_pyproject_str, ManifestError, ManifestFile,
};
use hyperforge::v5::build::patches::{scan_repo_texts, RepoTexts};
use hyperforge::v5::build::registry::{local_version_from_text, published_version_from_body};
use hyperforge::v5::config::ProviderKind;
use hyperforge::v5::forge_wire::{
    create_url, gitlab_group_url, group_lookup_body, metadata_from_body, push_listed_body, RemoteRepo,
};

fn no_texts() -> RepoTexts {
    RepoTexts {
        cargo_toml: None,
        go_mod: None,
        package_json: None,
        patch_files: vec![],
        pyproject_toml: None,
        requirements_txt: None,
        requirements_dev_txt: None,
        dev_requirements_txt: None,
        composer_json: None,
        gemfile: None,
        settings_gradle: None,
        settings_gradle_kts: None,
        build_gradle: None,
        build_gradle_kts: None,
        pom_xml: None,
        changed_paths: None,
    }
}

#[test]
fn cargo_text_reads_only_the_dependencies_table() {
    let raw = "[package]\nname = \"a\"\nversion = \"1.2.3\"\n[dependencies]\nb = \"0.4\"\nc = { version = \"2\" }\n[dev-dependencies]\nd = \"1\"\n";
    let m = parse_cargo_str(raw, "Cargo.toml").unwrap();
    assert_eq!(m.kind, "cargo");
    assert_eq!(m.name, "a");
    assert_eq!(m.version, "1.2.3");
    let names: Vec<&str> = m.deps.iter().map(|d| d.name.as_str()).collect();
    assert_eq!(names, vec!["b", "c"]);
    assert_eq!(m.deps[1].version, "2");
}

#[test]
fn cargo_text_that_is_not_toml_is_a_parse_error() {
    match parse_cargo_str("[package\nname = ", "dir/Cargo.toml") {
        Err(ManifestError::ParseError { file, message }) => {
            assert_eq!(file, "dir/Cargo.toml");
            assert!(!message.is_empty());
        }
        other => panic!("expected a parse error, got {other:?}"),
    }
}

#[test]
fn npm_text_reads_name_version_and_both_dependency_tables() {
    let raw = r#"{"name":"web","version":"0.3.0","dependencies":{"left":"^1.0.0"},"devDependencies":{"jest":"29"}}"#;
    let m = parse_npm_str(raw, "package.json").unwrap();
    assert_eq!(m.kind, "npm");
    assert_eq!(m.name, "web");
    assert_eq!(m.version, "0.3.0");
    assert_eq!(m.deps.len(), 2);
    assert_eq!(m.deps[0].name, "left");
    assert_eq!(m.deps[1].name, "jest");
}

#[test]
fn npm_text_that_is_not_json_is_a_parse_error() {
    let r = parse_npm_str("{ not json", "package.json");
    assert!(matches!(r, Err(ManifestError::ParseError { ref file, .. }) if file == "package.json"));
}

#[test]
fn pyproject_text_reads_project_table() {
    let raw = "[project]\nname = \"tool\"\nversion = \"0.9.1\"\ndependencies = [\"requests>=2.0\"]\n";
    let m = parse_pyproject_str(raw, "pyproject.toml").unwrap();
    assert_eq!(m.kind, "pypi");
    assert_eq!(m.name, "tool");
    assert_eq!(m.version, "0.9.1");
    assert_eq!(m.deps.len(), 1);
    assert_eq!(m.deps[0].name, "requests");
}

#[test]
fn pyproject_text_that_is_not_toml_is_a_parse_error() {
    assert!(matches!(
        parse_pyproject_str("= = =", "pyproject.toml"),
        Err(ManifestError::ParseError { .. })
    ));
}

#[test]
fn manifest_text_dispatches_on_the_file_kind() {
    let m = parse_manifest_text(ManifestFile::Cargo, "[package]\nname = \"x\"\nversion = \"0.1.0\"\n", "Cargo.toml").unwrap();
    assert_eq!((m.kind.as_str(), m.name.as_str()), ("cargo", "x"));
    let m = parse_manifest_text(ManifestFile::Npm, r#"{"name":"y","version":"1.0.0"}"#, "package.json").unwrap();
    assert_eq!((m.kind.as_str(), m.name.as_str()), ("npm", "y"));
    let m = parse_manifest_text(ManifestFile::Cabal, "name: z\nversion: 0.2\n", "z.cabal").unwrap();
    assert_eq!((m.kind.as_str(), m.name.as_str(), m.version.as_str()), ("cabal", "z", "0.2"));
    assert!(parse_manifest_text(ManifestFile::Pyproject, "[[", "pyproject.toml").is_err());
}

#[test]
fn local_version_from_cargo_and_node_texts() {
    assert_eq!(
        local_version_from_text("cargo", "[package]\nname = \"k\"\nversion = \"3.1.4\"\n"),
        Some(("k".to_string(), "3.1.4".to_string()))
    );
    assert_eq!(
        local_version_from_text("node", r#"{"name":"n","version":"0.0.7"}"#),
        Some(("n".to_string(), "0.0.7".to_string()))
    );
}

#[test]
fn local_version_from_unparsable_or_unknown_text_is_none() {
    assert_eq!(local_version_from_text("cargo", "[package"), None);
    assert_eq!(local_version_from_text("node", "{"), None);
    assert_eq!(local_version_from_text("cabal", "name: x\nversion: 1\n"), None);
}

#[test]
fn scanning_texts_finds_a_cargo_patch_table() {
    let mut t = no_texts();
    t.cargo_toml = Some("[package]\nname = \"a\"\n[patch.crates-io]\nserde = { path = \"../serde\" }\n".to_string());
    let found = scan_repo_texts(t);
    assert!(found.iter().any(|f| f.ecosystem == "cargo" && f.kind == "patch_table" && f.file == "Cargo.toml"));
}

#[test]
fn scanning_an_unparsable_manifest_finds_nothing_in_it() {
    let mut t = no_texts();
    t.cargo_toml = Some("[patch.crates-io\nserde = 1".to_string());
    t.package_json = Some("{".to_string());
    assert!(scan_repo_texts(t).is_empty());
}

#[test]
fn scanning_npm_text_finds_overrides() {
    let mut t = no_texts();
    t.package_json = Some(r#"{"name":"w","overrides":{"lodash":"4.17.21"}}"#.to_string());
    let found = scan_repo_texts(t);
    assert!(found.iter().any(|f| f.ecosystem == "npm"));
}

#[test]
fn published_version_of_a_crates_io_body() {
    let body = r#"{"crate":{"name":"x","max_version":"1.4.0","max_stable_version":"1.3.9"}}"#;
    let v = published_version_from_body("crates_io", body).unwrap();
    assert_eq!(v, Some("1.3.9".to_string()));
    assert!(published_version_from_body("crates_io", "not json").is_err());
}

#[test]
fn published_version_of_an_npm_body() {
    let body = r#"{"name":"p","dist-tags":{"latest":"2.0.1"}}"#;
    assert_eq!(published_version_from_body("npm", body).unwrap(), Some("2.0.1".to_string()));
}

#[test]
fn metadata_from_a_github_body() {
    let body = r#"{"default_branch":"main","description":"d","archived":true,"private":false,"visibility":"public"}"#;
    let md = metadata_from_body(ProviderKind::Github, body).unwrap();
    assert_eq!(md.default_branch, "main");
    assert_eq!(md.description, "d");
    assert!(md.archived);
    assert!(metadata_from_body(ProviderKind::Github, "<html>").is_err());
}

#[test]
fn listing_a_page_body_appends_its_repos() {
    let mut items: Vec<RemoteRepo> = Vec::new();
    let body = r#"[{"name":"one","clone_url":"https://x/one.git"},{"name":"two","clone_url":"https://x/two.git"}]"#;
    let added = push_listed_body(ProviderKind::Github, body, &mut items).unwrap();
    assert_eq!(added, 2);
    assert_eq!(items.len(), 2);
    assert_eq!(items[0].name, "one");
    assert_eq!(items[1].url, "https://x/two.git");
    let bad: Result<usize, ForgePortError> = push_listed_body(ProviderKind::Github, "[", &mut items);
    assert!(bad.is_err());
    assert_eq!(items.len(), 2);
}

#[test]
fn gitlab_group_lookup_from_body() {
    assert_eq!(group_lookup_body(200, "200 OK", r#"{"id":42}"#).unwrap(), Some(42));
    assert_eq!(group_lookup_body(404, "404 Not Found", "").unwrap(), None);
    assert!(group_lookup_body(200, "200 OK", "{").is_err());
    assert!(group_lookup_body(500, "500 Internal Server Error", "boom").is_err());
}

#[test]
fn create_addresses_per_forge() {
    assert_eq!(create_url(ProviderKind::Github, "api.github.com", "acme", false), "https://api.github.com/orgs/acme/repos");
    assert_eq!(create_url(ProviderKind::Github, "api.github.com", "acme", true), "https://api.github.com/user/repos");
    assert_eq!(create_url(ProviderKind::Codeberg, "codeberg.org", "acme", false), "https://codeberg.org/api/v1/orgs/acme/repos");
    assert_eq!(create_url(ProviderKind::Codeberg, "codeberg.org", "acme", true), "https://codeberg.org/api/v1/user/repos");
    assert_eq!(create_url(ProviderKind::Gitlab, "gitlab.com", "acme", false), "https://gitlab.com/api/v4/projects");
    assert_eq!(gitlab_group_url("gitlab.com", "acme"), "https://gitlab.com/api/v4/groups/acme");
}
