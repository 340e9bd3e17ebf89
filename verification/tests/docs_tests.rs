use hyperforge::doc::DocValue;
use hyperforge::v5::build::manifest::{
    cabal_text_readable, parse_cabal_text, parse_cargo_doc, parse_cargo_str, parse_npm_doc, parse_pyproject_doc,
    preferred_manifest, split_requirement_exec, ManifestError, ManifestFile,
};
use hyperforge::v5::build::patches::{
    scan_cargo, scan_composer, scan_go, scan_gradle, scan_maven, scan_npm, scan_python, scan_repo,
    scan_requirements, scan_ruby, scan_vendored_edits, Finding, RepoFiles,
};

fn doc_from_toml(v: &toml::Value) -> DocValue {
    match v {
        toml::Value::String(s) => DocValue::Str(s.clone()),
        toml::Value::Boolean(b) => DocValue::Bool(*b),
        toml::Value::Integer(n) => DocValue::Int(*n),
        toml::Value::Array(a) => DocValue::Array(a.iter().map(doc_from_toml).collect()),
        toml::Value::Table(t) => {
            DocValue::Table(t.iter().map(|(k, x)| (k.clone(), doc_from_toml(x))).collect())
        }
        _ => DocValue::Other,
    }
}

fn doc_from_json(v: &serde_json::Value) -> DocValue {
    match v {
        serde_json::Value::String(s) => DocValue::Str(s.clone()),
        serde_json::Value::Bool(b) => DocValue::Bool(*b),
        serde_json::Value::Number(n) => match n.as_i64() {
            Some(i) => DocValue::Int(i),
            None => DocValue::Other,
        },
        serde_json::Value::Array(a) => DocValue::Array(a.iter().map(doc_from_json).collect()),
        serde_json::Value::Object(o) => {
            DocValue::Table(o.iter().map(|(k, x)| (k.clone(), doc_from_json(x))).collect())
        }
        serde_json::Value::Null => DocValue::Other,
    }
}

fn toml_doc(text: &str) -> DocValue {
    let t: toml::Table = text.parse().unwrap();
    doc_from_toml(&toml::Value::Table(t))
}

fn json_doc(text: &str) -> DocValue {
    let v: serde_json::Value = serde_json::from_str(text).unwrap();
    doc_from_json(&v)
}

fn empty_files() -> RepoFiles {
    RepoFiles {
        cargo_toml: None,
        go_mod: None,
        package_json: None,
        patch_files: Vec::new(),
        pyproject_toml: None,
        requirements_txt: None,
        requirements_dev_txt: None,
        dev_requirements_txt: None,
        composer_json: None,
        gemfile: None,
        settings_gradle: None,
        settings_gradle_kts: None,
        build_gradle: None,
        build_gradle_kts: None,
        pom_xml: None,
        changed_paths: None,
    }
}

#[test]
fn cargo_patch_and_path_dep() {
    let mut files = empty_files();
    files.cargo_toml = Some(toml_doc(
        r#"
[package]
name = "x"
version = "0.1.0"

[dependencies]
plexus-core = { path = "../plexus-core" }
serde = "1"

[patch.crates-io]
serde = { git = "https://example/serde" }
"#,
    ));
    let fs = scan_repo(&files);
    assert!(fs.iter().any(|x| x.kind == "path_dep" && x.detail.contains("plexus-core")));
    assert!(fs.iter().any(|x| x.kind == "patch_table" && x.detail.contains("serde")));
}

#[test]
fn npm_file_specifier_and_resolutions() {
    let mut files = empty_files();
    files.package_json = Some(json_doc(
        r#"{ "dependencies": { "a": "file:../a" },
                 "resolutions": { "left-pad": "1.3.0" } }"#,
    ));
    let fs = scan_repo(&files);
    assert!(fs.iter().any(|x| x.kind == "local_specifier" && x.detail.contains("file:../a")));
    assert!(fs.iter().any(|x| x.kind == "resolutions" && x.detail.contains("left-pad")));
}

#[test]
fn go_local_replace() {
    let mut files = empty_files();
    files.go_mod = Some("module m\n\nrequire x v1.0.0\nreplace x => ./local/x\n".to_string());
    let fs = scan_repo(&files);
    assert!(fs.iter().any(|x| x.ecosystem == "go" && x.kind == "replace_directive"));
}

#[test]
fn clean_repo_has_no_findings() {
    let mut files = empty_files();
    files.cargo_toml = Some(toml_doc("[package]\nname=\"x\"\nversion=\"0.1.0\"\n[dependencies]\nserde=\"1\"\n"));
    assert!(scan_repo(&files).is_empty());
}

#[test]
fn cargo_findings_exact_details() {
    let doc = toml_doc(
        r#"
[package]
name = "x"
[dependencies]
a = { path = "../a" }
[dev-dependencies]
b = { path = 7 }
[replace]
"c:1.0" = { git = "g" }
[workspace.dependencies]
w = { path = "crates/w" }
[target.'cfg(unix)'.build-dependencies]
t = { path = "t" }
"#,
    );
    let mut out: Vec<Finding> = Vec::new();
    scan_cargo(&doc, &mut out);
    let details: Vec<&str> = out.iter().map(|f| f.detail.as_str()).collect();
    assert_eq!(
        details,
        vec![
            "c:1.0 (via [replace])",
            "a -> ../a (in [dependencies])",
            "b -> ? (in [dev-dependencies])",
            "w -> crates/w (in [dependencies])",
            "t -> t (in [build-dependencies])",
        ]
    );
    assert!(out.iter().all(|f| f.ecosystem == "cargo" && f.category == "declared_override" && f.file == "Cargo.toml"));
}

#[test]
fn go_replace_block_and_remote_targets() {
    let text = "replace (\n  a => ../a\n  b => github.com/x/b v1.0.0\n)\nreplace c => /abs/c v0\n";
    let mut out: Vec<Finding> = Vec::new();
    scan_go(text, &mut out);
    let details: Vec<&str> = out.iter().map(|f| f.detail.as_str()).collect();
    assert_eq!(details, vec!["a (replace => ../a)", "c (replace => /abs/c)"]);
}

#[test]
fn npm_pnpm_and_patch_files() {
    let doc = json_doc(
        r#"{ "devDependencies": { "l": "link:../l", "r": "^1.0.0" },
             "overrides": { "o": "1" },
             "pnpm": { "overrides": { "p": "2" }, "patchedDependencies": { "q@1": "patches/q.patch" } } }"#,
    );
    let files = vec!["q.patch".to_string(), "README.md".to_string()];
    let mut out: Vec<Finding> = Vec::new();
    scan_npm(&doc, &files, &mut out);
    let got: Vec<(&str, &str)> = out.iter().map(|f| (f.kind.as_str(), f.detail.as_str())).collect();
    assert_eq!(
        got,
        vec![
            ("local_specifier", "l -> link:../l (in devDependencies)"),
            ("overrides", "o (in \"overrides\")"),
            ("overrides", "p (in pnpm.overrides)"),
            ("patch_package", "q@1 (pnpm.patchedDependencies)"),
            ("patch_package", "patches/q.patch"),
        ]
    );
}

#[test]
fn python_poetry_uv_and_requirements() {
    let doc = toml_doc(
        r#"
[tool.poetry.dependencies]
a = { path = "../a" }
b = { version = "1", develop = true }
c = "1.0"
[tool.uv.sources]
d = { workspace = true }
e = { index = "x" }
"#,
    );
    let reqs = "# comment\n-e ./lib\nrequests==2.0\npkg @ ./local\n";
    let mut out: Vec<Finding> = Vec::new();
    scan_python(Some(&doc), Some(reqs), None, None, &mut out);
    let got: Vec<(&str, &str, &str)> =
        out.iter().map(|f| (f.kind.as_str(), f.detail.as_str(), f.file.as_str())).collect();
    assert_eq!(
        got,
        vec![
            ("path_dep", "a (poetry dependencies)", "pyproject.toml"),
            ("path_dep", "b (poetry dependencies)", "pyproject.toml"),
            ("path_dep", "d (tool.uv.sources)", "pyproject.toml"),
            ("editable_install", "-e ./lib", "requirements.txt"),
            ("editable_install", "pkg @ ./local", "requirements.txt"),
        ]
    );
}

#[test]
fn requirements_long_lines_are_clipped() {
    let long = format!("-e ./{}", "x".repeat(200));
    let mut out: Vec<Finding> = Vec::new();
    scan_requirements("dev-requirements.txt", Some(&long), &mut out);
    assert_eq!(out.len(), 1);
    assert_eq!(out[0].detail.chars().count(), 120);
    assert_eq!(out[0].file, "dev-requirements.txt");
}

#[test]
fn composer_path_repositories() {
    let arr = json_doc(r#"{ "repositories": [ { "type": "path", "url": "../pkg" }, { "type": "vcs", "url": "x" }, { "type": "path" } ] }"#);
    let mut out: Vec<Finding> = Vec::new();
    scan_composer(&arr, &mut out);
    let details: Vec<&str> = out.iter().map(|f| f.detail.as_str()).collect();
    assert_eq!(details, vec!["path repository -> ../pkg", "path repository -> ?"]);
    let obj = json_doc(r#"{ "repositories": { "local": { "type": "path", "url": "/srv/p" } } }"#);
    let mut out2: Vec<Finding> = Vec::new();
    scan_composer(&obj, &mut out2);
    assert_eq!(out2.len(), 1);
    assert_eq!(out2[0].detail, "path repository -> /srv/p");
}

#[test]
fn ruby_gradle_maven_lines() {
    let gemfile = "source 'x'\ngemspec\ngem 'a', path: '../a'\ngem 'b', github: 'x/b'\n# gem 'c', path: 'c'\ngem 'd'\n";
    let mut out: Vec<Finding> = Vec::new();
    scan_ruby(gemfile, &mut out);
    let kinds: Vec<&str> = out.iter().map(|f| f.kind.as_str()).collect();
    assert_eq!(kinds, vec!["local_gemspec", "path_gem", "git_gem"]);

    let mut g: Vec<Finding> = Vec::new();
    scan_gradle(
        Some("  includeBuild('../lib')\n"),
        None,
        Some("implementation project(':core')\nrepositories { mavenLocal() }\n"),
        None,
        &mut g,
    );
    let got: Vec<(&str, &str, &str)> = g.iter().map(|f| (f.kind.as_str(), f.detail.as_str(), f.file.as_str())).collect();
    assert_eq!(
        got,
        vec![
            ("included_build", "includeBuild('../lib')", "settings.gradle"),
            ("project_dependency", "implementation project(':core')", "build.gradle"),
            ("maven_local", "mavenLocal()", "build.gradle"),
        ]
    );

    let mut m: Vec<Finding> = Vec::new();
    scan_maven("<dependency><scope>system</scope><systemPath>/x.jar</systemPath></dependency>", &mut m);
    let kinds: Vec<&str> = m.iter().map(|f| f.kind.as_str()).collect();
    assert_eq!(kinds, vec!["system_path", "system_scope"]);
}

#[test]
fn vendored_edits_sample_and_more() {
    let changed: Vec<String> = (0..7)
        .map(|i| format!("vendor/p{i}.go"))
        .chain(["src/main.rs".to_string(), "\"third_party/a b\"".to_string()])
        .collect();
    let mut out: Vec<Finding> = Vec::new();
    scan_vendored_edits(&changed, &mut out);
    assert_eq!(out.len(), 2);
    assert_eq!(
        out[0].detail,
        "7 edited under vendor/: vendor/p0.go, vendor/p1.go, vendor/p2.go, vendor/p3.go, vendor/p4.go (+2 more)"
    );
    assert_eq!(out[0].category, "vendored_edit");
    assert_eq!(out[0].file, "vendor/");
    assert_eq!(out[1].detail, "1 edited under third_party/: \"third_party/a b\"");
}

#[test]
fn parse_cargo_ok() {
    let raw = r#"
            [package]
            name = "foo"
            version = "0.1.2"
            [dependencies]
            serde = "1.0"
            tokio = { version = "1.30" }
        "#;
    let m = parse_cargo_str(raw, "<mem>").unwrap();
    assert_eq!(m.name, "foo");
    assert_eq!(m.version, "0.1.2");
    assert_eq!(m.deps.len(), 2);
}

#[test]
fn parse_cargo_versions_and_missing_package() {
    let doc = toml_doc("[package]\nname='p'\n[dependencies]\na = '1'\nb = { path = 'x' }\nc = { version = '2' }\n");
    let m = parse_cargo_doc(&doc, "Cargo.toml").unwrap();
    let vs: Vec<(&str, &str)> = m.deps.iter().map(|d| (d.name.as_str(), d.version.as_str())).collect();
    assert_eq!(vs, vec![("a", "1"), ("b", "*"), ("c", "2")]);
    assert_eq!(m.version, "");
    match parse_cargo_doc(&toml_doc("[workspace]\n"), "ws/Cargo.toml") {
        Err(ManifestError::ParseError { file, message }) => {
            assert_eq!(file, "ws/Cargo.toml");
            assert_eq!(message, "missing [package]");
        }
        other => panic!("unexpected {other:?}"),
    }
}

#[test]
fn parse_npm_and_pyproject_docs() {
    let m = parse_npm_doc(&json_doc(r#"{"name":"n","version":"1.0.0","dependencies":{"a":"^1"},"devDependencies":{"b":{"x":1}}}"#));
    assert_eq!(m.kind, "npm");
    let vs: Vec<(&str, &str)> = m.deps.iter().map(|d| (d.name.as_str(), d.version.as_str())).collect();
    assert_eq!(vs, vec![("a", "^1"), ("b", "*")]);

    let p = parse_pyproject_doc(
        &toml_doc("[project]\nname='py'\nversion='0.2'\ndependencies=['requests>=2.0', 'six', 'x ~= 1.4', 'y>3']\n"),
        "pyproject.toml",
    )
    .unwrap();
    let vs: Vec<(&str, &str)> = p.deps.iter().map(|d| (d.name.as_str(), d.version.as_str())).collect();
    assert_eq!(vs, vec![("requests", "2.0"), ("six", "*"), ("x", "1.4"), ("y", "3")]);

    let q = parse_pyproject_doc(&toml_doc("[tool.poetry]\nname='po'\n[tool.poetry.dependencies]\npython='^3.9'\n"), "f").unwrap();
    assert_eq!(q.name, "po");
    assert_eq!(q.deps[0].name, "python");
    assert_eq!(q.deps[0].version, "^3.9");
    assert!(parse_pyproject_doc(&toml_doc("[tool.black]\n"), "f").is_err());
    assert_eq!(split_requirement_exec("a==1>=2"), ("a".to_string(), "1>=2".to_string()));
}

#[test]
fn parse_cabal_name_and_version() {
    let raw = "cabal-version:      3.0\nname:               synapse-cc\nversion:            0.3.4\n";
    assert!(cabal_text_readable(raw));
    let m = parse_cabal_text(raw, "synapse-cc.cabal").unwrap();
    assert_eq!(m.kind, "cabal");
    assert_eq!(m.name, "synapse-cc");
    assert_eq!(m.version, "0.3.4");
    assert!(m.deps.is_empty());
}

#[test]
fn parse_cabal_missing_version_errors() {
    let raw = "name: x\n";
    assert!(cabal_text_readable(raw));
    assert!(parse_cabal_text(raw, "x.cabal").is_err());
}

#[test]
fn cabal_field_case_and_unreadable_text() {
    let m = parse_cabal_text("NAME: up\nVersion: 2\n", "u.cabal").unwrap();
    assert_eq!((m.name.as_str(), m.version.as_str()), ("up", "2"));
    assert!(!cabal_text_readable("nam\u{e9}: x\nversion: 1\n"));
}

#[test]
fn detect_prefers_cabal_over_stray_package_json() {
    assert_eq!(preferred_manifest(false, true, true, false), Some(ManifestFile::Cabal));
    let m = parse_cabal_text("name: thing\nversion: 1.0.0\n", "thing.cabal").unwrap();
    assert_eq!(m.kind, "cabal");
    assert_eq!(m.name, "thing");
}

#[test]
fn detect_still_prefers_cargo_over_cabal() {
    assert_eq!(preferred_manifest(true, true, false, false), Some(ManifestFile::Cargo));
    let m = parse_cargo_doc(&toml_doc("[package]\nname = \"r\"\nversion = \"0.1.0\"\n"), "Cargo.toml").unwrap();
    assert_eq!(m.kind, "cargo");
    assert_eq!(preferred_manifest(false, false, false, false), None);
}
