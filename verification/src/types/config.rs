//! Shared configuration types: CI runners, distribution channels and
//! per-forge overrides.

use vstd::prelude::*;

use crate::text::views;

verus! {

/// The build system detected in a repo.
#[derive(Debug, Clone, Copy, PartialEq, Eq, Structural)]
pub enum BuildSystemKind {
    Cargo,
    Cabal,
    Node,
    Unknown,
}

/// Runner execution mode.
#[derive(Debug, Clone, Copy, PartialEq, Eq, Structural)]
pub enum RunnerType {
    Local,
    Docker,
}

/// A single runner in the layered CI pipeline. Runners are ordered by
/// rigor: index 0 = quickest, higher = more thorough.
#[derive(Debug)]
pub struct RunnerConfig {
    /// Runner type: local (direct execution) or docker (containerized)
    pub runner_type: RunnerType,
    /// Build command
    pub build: Vec<String>,
    /// Test command
    pub test: Vec<String>,
    /// Docker image (required for docker type, ignored for local)
    pub image: Option<String>,
    /// Environment variables
    pub env: Vec<(String, String)>,
    /// Timeout in seconds (default: 300)
    pub timeout_secs: u64,
}

/// The abstract content of a runner.
pub struct RunnerView {
    pub runner_type: RunnerType,
    pub build: Seq<Seq<char>>,
    pub test: Seq<Seq<char>>,
    pub image: Option<Seq<char>>,
    pub env: Seq<(Seq<char>, Seq<char>)>,
    pub timeout_secs: u64,
}

/// The view of an optional string.
pub open spec fn opt_view(o: Option<String>) -> Option<Seq<char>> {
    match o {
        Some(s) => Some(s@),
        None => None,
    }
}

impl View for RunnerConfig {
    type V = RunnerView;

    open spec fn view(&self) -> RunnerView {
        RunnerView {
            runner_type: self.runner_type,
            build: views(self.build@),
            test: views(self.test@),
            image: opt_view(self.image),
            env: self.env@.map_values(|p: (String, String)| (p.0@, p.1@)),
            timeout_secs: self.timeout_secs,
        }
    }
}

/// A copy of a list of strings.
pub fn clone_strings(v: &Vec<String>) -> (r: Vec<String>)
    ensures
        views(r@) == views(v@),
{
    let mut r: Vec<String> = Vec::new();
    let mut k: usize = 0;
    while k < v.len()
        invariant
            k <= v@.len(),
            r@.len() == k,
            forall|j: int| 0 <= j < k ==> (#[trigger] r@[j])@ == v@[j]@,
        decreases v@.len() - k,
    {
        r.push(v[k].clone());
        k = k + 1;
    }
    assert(views(r@) =~= views(v@));
    r
}

/// A list of strings from literals.
fn strings_of(parts: &[&str]) -> (r: Vec<String>)
    ensures
        r@.len() == parts@.len(),
        forall|j: int| 0 <= j < parts@.len() ==> (#[trigger] r@[j])@ == parts@[j]@,
{
    let mut r: Vec<String> = Vec::new();
    let mut k: usize = 0;
    while k < parts.len()
        invariant
            k <= parts@.len(),
            r@.len() == k,
            forall|j: int| 0 <= j < k ==> (#[trigger] r@[j])@ == parts@[j]@,
        decreases parts@.len() - k,
    {
        r.push(parts[k].to_owned());
        k = k + 1;
    }
    r
}

impl RunnerConfig {
    /// A copy with the same content.
    pub fn duplicate(&self) -> (r: Self)
        ensures
            r@ == self@,
    {
        let mut env: Vec<(String, String)> = Vec::new();
        let mut k: usize = 0;
        while k < self.env.len()
            invariant
                k <= self.env@.len(),
                env@.len() == k,
                forall|j: int|
                    0 <= j < k ==> (#[trigger] env@[j]).0@ == self.env@[j].0@ && env@[j].1@
                        == self.env@[j].1@,
            decreases self.env@.len() - k,
        {
            let (a, b) = &self.env[k];
            env.push((a.clone(), b.clone()));
            k = k + 1;
        }
        let image = match &self.image {
            Some(i) => Some(i.clone()),
            None => None,
        };
        let r = RunnerConfig {
            runner_type: self.runner_type,
            build: clone_strings(&self.build),
            test: clone_strings(&self.test),
            image,
            env,
            timeout_secs: self.timeout_secs,
        };
        assert(r@.env =~= self@.env);
        r
    }
}

/// CI/validation configuration for a repo.
#[derive(Debug)]
pub struct CiConfig {
    /// Skip all CI for this repo
    pub skip_validate: bool,
    /// Ordered list of runners (escalating rigor)
    pub runners: Vec<RunnerConfig>,
}

/// The abstract content of a CI configuration.
pub struct CiView {
    pub skip_validate: bool,
    pub runners: Seq<RunnerView>,
}

impl View for CiConfig {
    type V = CiView;

    open spec fn view(&self) -> CiView {
        CiView {
            skip_validate: self.skip_validate,
            runners: self.runners@.map_values(|r: RunnerConfig| r@),
        }
    }
}

impl CiConfig {
    /// A copy with the same content.
    pub fn duplicate(&self) -> (r: Self)
        ensures
            r@ == self@,
    {
        let mut runners: Vec<RunnerConfig> = Vec::new();
        let mut k: usize = 0;
        while k < self.runners.len()
            invariant
                k <= self.runners@.len(),
                runners@.len() == k,
                forall|j: int| 0 <= j < k ==> (#[trigger] runners@[j])@ == self.runners@[j]@,
            decreases self.runners@.len() - k,
        {
            runners.push(self.runners[k].duplicate());
            k = k + 1;
        }
        let r = CiConfig { skip_validate: self.skip_validate, runners };
        assert(r@.runners =~= self@.runners);
        r
    }
}

impl Default for CiConfig {
    fn default() -> (c: Self)
        ensures
            !c.skip_validate,
            c.runners@.len() == 0,
    {
        CiConfig { skip_validate: false, runners: Vec::new() }
    }
}

/// The first build system that is not `Unknown`, else `Unknown`.
pub open spec fn primary_build_system(s: Seq<BuildSystemKind>) -> BuildSystemKind
    decreases s.len(),
{
    if s.len() == 0 {
        BuildSystemKind::Unknown
    } else if s[0] != BuildSystemKind::Unknown {
        s[0]
    } else {
        primary_build_system(s.drop_first())
    }
}

/// A runner with no environment.
pub open spec fn runner(
    t: RunnerType,
    build: Seq<Seq<char>>,
    test: Seq<Seq<char>>,
    image: Option<Seq<char>>,
    timeout: u64,
) -> RunnerView {
    RunnerView { runner_type: t, build, test, image, env: Seq::empty(), timeout_secs: timeout }
}

/// The layered runners that a build system gets by default.
pub open spec fn default_ci_spec(kind: BuildSystemKind) -> CiView {
    match kind {
        BuildSystemKind::Cargo => CiView {
            skip_validate: false,
            runners: seq![
                runner(RunnerType::Local, seq!["cargo"@, "check"@], seq!["cargo"@, "test"@, "--lib"@], None, 300),
                runner(RunnerType::Local, seq!["cargo"@, "build"@], seq!["cargo"@, "test"@], None, 600),
                runner(RunnerType::Docker, seq!["cargo"@, "build"@], seq!["cargo"@, "test"@], Some("rust:latest"@), 900),
            ],
        },
        BuildSystemKind::Cabal => CiView {
            skip_validate: false,
            runners: seq![
                runner(RunnerType::Local, seq!["cabal"@, "build"@], seq!["cabal"@, "test"@, "all"@], None, 600),
                runner(RunnerType::Docker, seq!["cabal"@, "build"@], seq!["cabal"@, "test"@, "all"@], Some("haskell:latest"@), 900),
            ],
        },
        BuildSystemKind::Node => CiView {
            skip_validate: false,
            runners: seq![
                runner(RunnerType::Local, seq!["npm install && npm run build"@], seq!["npm"@, "test"@], None, 300),
                runner(RunnerType::Docker, seq!["npm install && npm run build"@], seq!["npm"@, "test"@], Some("node:lts"@), 600),
            ],
        },
        BuildSystemKind::Unknown => CiView { skip_validate: true, runners: Seq::empty() },
    }
}

fn make_runner(
    t: RunnerType,
    build: &[&str],
    test: &[&str],
    image: Option<&str>,
    timeout: u64,
) -> (r: RunnerConfig)
    ensures
        r.runner_type == t,
        views(r.build@) == build@.map_values(|s: &str| s@),
        views(r.test@) == test@.map_values(|s: &str| s@),
        opt_view(r.image) == (match image {
            Some(i) => Some(i@),
            None => None,
        }),
        r.env@.len() == 0,
        r.timeout_secs == timeout,
{
    let b = strings_of(build);
    let ts = strings_of(test);
    assert(views(b@) =~= build@.map_values(|s: &str| s@));
    assert(views(ts@) =~= test@.map_values(|s: &str| s@));
    let image = match image {
        Some(i) => Some(i.to_owned()),
        None => None,
    };
    RunnerConfig { runner_type: t, build: b, test: ts, image, env: Vec::new(), timeout_secs: timeout }
}

/// The first build system that is not `Unknown`, else `Unknown`.
pub fn primary_of(build_systems: &[BuildSystemKind]) -> (k: BuildSystemKind)
    ensures
        k == primary_build_system(build_systems@),
{
    let mut i: usize = 0;
    assert(build_systems@.skip(0) =~= build_systems@);
    while i < build_systems.len()
        invariant
            i <= build_systems@.len(),
            primary_build_system(build_systems@) == primary_build_system(build_systems@.skip(i as int)),
        decreases build_systems@.len() - i,
    {
        assert(build_systems@.skip(i as int).drop_first() =~= build_systems@.skip(i + 1));
        if build_systems[i] != BuildSystemKind::Unknown {
            return build_systems[i];
        }
        i = i + 1;
    }
    assert(build_systems@.skip(i as int) =~= Seq::<BuildSystemKind>::empty());
    BuildSystemKind::Unknown
}

/// Generate default CI config based on detected build systems: layered
/// runners for the first build system that is not `Unknown`.
pub fn default_ci_config(build_systems: &[BuildSystemKind]) -> (c: CiConfig)
    ensures
        c@ == default_ci_spec(primary_build_system(build_systems@)),
{
    let primary = primary_of(build_systems);
    let mut runners: Vec<RunnerConfig> = Vec::new();
    let skip = match primary {
        BuildSystemKind::Cargo => {
            runners.push(make_runner(RunnerType::Local, &["cargo", "check"], &["cargo", "test", "--lib"], None, 300));
            runners.push(make_runner(RunnerType::Local, &["cargo", "build"], &["cargo", "test"], None, 600));
            runners.push(make_runner(RunnerType::Docker, &["cargo", "build"], &["cargo", "test"], Some("rust:latest"), 900));
            false
        },
        BuildSystemKind::Cabal => {
            runners.push(make_runner(RunnerType::Local, &["cabal", "build"], &["cabal", "test", "all"], None, 600));
            runners.push(make_runner(RunnerType::Docker, &["cabal", "build"], &["cabal", "test", "all"], Some("haskell:latest"), 900));
            false
        },
        BuildSystemKind::Node => {
            runners.push(make_runner(RunnerType::Local, &["npm install && npm run build"], &["npm", "test"], None, 300));
            runners.push(make_runner(RunnerType::Docker, &["npm install && npm run build"], &["npm", "test"], Some("node:lts"), 600));
            false
        },
        BuildSystemKind::Unknown => true,
    };
    let c = CiConfig { skip_validate: skip, runners };
    proof {
        let want = default_ci_spec(primary);
        assert(c@.runners.len() == want.runners.len());
        assert forall|j: int| 0 <= j < c@.runners.len() implies c@.runners[j] == want.runners[j] by {
            assert(c@.runners[j].env =~= want.runners[j].env);
            assert(c@.runners[j].build =~= want.runners[j].build);
            assert(c@.runners[j].test =~= want.runners[j].test);
        }
        assert(c@.runners =~= want.runners);
    }
    c
}

/// Resolve CI config for a repo: the existing config if present,
/// otherwise the defaults for the detected build systems.
pub fn resolve_ci_config(existing: Option<&CiConfig>, build_systems: &[BuildSystemKind]) -> (c: CiConfig)
    ensures
        c@ == (match existing {
            Some(e) => e@,
            None => default_ci_spec(primary_build_system(build_systems@)),
        }),
{
    match existing {
        Some(ci) => ci.duplicate(),
        None => default_ci_config(build_systems),
    }
}

/// Distribution channel for binary releases.
#[derive(Debug, Clone, Copy, PartialEq, Eq, Structural)]
pub enum DistChannel {
    ForgeRelease,
    CratesIo,
    Hackage,
    Brew,
    Ghcr,
    Binstall,
}

impl DistChannel {
    /// The kebab-case name (its `Display` form).
    pub fn as_str(&self) -> (s: &'static str)
        ensures
            s@ == (match self {
                DistChannel::ForgeRelease => "forge-release"@,
                DistChannel::CratesIo => "crates-io"@,
                DistChannel::Hackage => "hackage"@,
                DistChannel::Brew => "brew"@,
                DistChannel::Ghcr => "ghcr"@,
                DistChannel::Binstall => "binstall"@,
            }),
    {
        match self {
            DistChannel::ForgeRelease => "forge-release",
            DistChannel::CratesIo => "crates-io",
            DistChannel::Hackage => "hackage",
            DistChannel::Brew => "brew",
            DistChannel::Ghcr => "ghcr",
            DistChannel::Binstall => "binstall",
        }
    }
}

/// Per-repo distribution configuration.
#[derive(Debug, Clone, Default)]
pub struct DistConfig {
    pub channels: Vec<DistChannel>,
    pub targets: Vec<String>,
    pub brew_tap: Option<String>,
    pub brew_tap_path: Option<String>,
}

/// Per-forge configuration overrides.
#[derive(Debug, Clone, Default)]
pub struct ForgeConfig {
    /// Override organization for this forge
    pub org: Option<String>,
    /// Git remote name for this forge
    pub remote: Option<String>,
}

} // verus!
