//! Package types for repos that contain publishable packages, and the
//! semver bump arithmetic.

use vstd::prelude::*;

use crate::text::{
    concat, decimal, eq_str, lowercase, parse_u64, parse_u64_range, split, split_ranges,
    string_of_range, to_chars, to_lowercase, u64_to_string,
};

verus! {

/// Semantic version bump type.
#[derive(Debug, Clone, Copy, PartialEq, Eq, Structural)]
pub enum VersionBump {
    /// Bump patch version (0.0.x) - bug fixes, no API changes
    Patch,
    /// Bump minor version (0.x.0) - new features, backwards compatible
    Minor,
    /// Bump major version (x.0.0) - breaking changes
    Major,
}

/// The dot-separated components of `version` before its first `-`.
pub open spec fn version_parts(version: Seq<char>) -> Seq<Seq<char>> {
    split(split(version, '-')[0], '.')
}

/// The `(major, minor, patch)` triple of `version`, or the error message
/// that names the first component that is missing or not a number.
pub open spec fn parse_triple(version: Seq<char>) -> Result<(u64, u64, u64), Seq<char>> {
    let parts = version_parts(version);
    if parts.len() < 3 {
        Err("Invalid semver version: "@ + version)
    } else if parse_u64(parts[0]) is None {
        Err("Invalid major version: "@ + parts[0])
    } else if parse_u64(parts[1]) is None {
        Err("Invalid minor version: "@ + parts[1])
    } else if parse_u64(parts[2]) is None {
        Err("Invalid patch version: "@ + parts[2])
    } else {
        Ok((parse_u64(parts[0])->0, parse_u64(parts[1])->0, parse_u64(parts[2])->0))
    }
}

/// `a.b.c` in decimal.
pub open spec fn dotted(a: nat, b: nat, c: nat) -> Seq<char> {
    decimal(a) + "."@ + decimal(b) + "."@ + decimal(c)
}

impl VersionBump {
    /// The triple after this bump, sub-components zeroed.
    pub open spec fn bumped(self, t: (u64, u64, u64)) -> (nat, nat, nat) {
        match self {
            VersionBump::Patch => (t.0 as nat, t.1 as nat, (t.2 + 1) as nat),
            VersionBump::Minor => (t.0 as nat, (t.1 + 1) as nat, 0),
            VersionBump::Major => ((t.0 + 1) as nat, 0, 0),
        }
    }

    /// Whether bumping `version` would take a component past `u64::MAX`.
    pub open spec fn overflows(self, version: Seq<char>) -> bool {
        match parse_triple(version) {
            Ok(t) => {
                let b = self.bumped(t);
                b.0 > u64::MAX || b.1 > u64::MAX || b.2 > u64::MAX
            },
            Err(_) => false,
        }
    }

    /// What `apply` returns for `version`.
    pub open spec fn apply_spec(self, version: Seq<char>) -> Result<Seq<char>, Seq<char>> {
        match parse_triple(version) {
            Ok(t) => {
                let b = self.bumped(t);
                Ok(dotted(b.0, b.1, b.2))
            },
            Err(e) => Err(e),
        }
    }

    /// Apply this bump to a semver version string. A pre-release suffix
    /// (after the first `-`) is dropped; sub-components are zeroed.
    ///
    /// - `1.2.3` + Patch -> `1.2.4`
    /// - `1.2.3` + Minor -> `1.3.0`
    /// - `1.2.3` + Major -> `2.0.0`
    pub fn apply(&self, version: &str) -> (r: Result<String, String>)
        requires
            !self.overflows(version@),
        ensures
            match r {
                Ok(s) => self.apply_spec(version@) == Ok::<Seq<char>, Seq<char>>(s@),
                Err(e) => self.apply_spec(version@) == Err::<Seq<char>, Seq<char>>(e@),
            },
    {
        let v = to_chars(version);
        assert(v@.subrange(0, v@.len() as int) =~= v@);
        let dash = split_ranges(&v, 0, v.len(), '-');
        proof {
            crate::text::lemma_split_nonempty(version@, '-');
        }
        let (a, b) = dash[0];
        let dots = split_ranges(&v, a, b, '.');
        let ghost parts = version_parts(version@);
        assert(parts == split(v@.subrange(a as int, b as int), '.'));
        if dots.len() < 3 {
            return Err(concat("Invalid semver version: ", version));
        }
        let (m0, m1) = dots[0];
        let major = match parse_u64_range(&v, m0, m1) {
            Some(x) => x,
            None => {
                let piece = string_of_range(&v, m0, m1);
                return Err(concat("Invalid major version: ", piece.as_str()));
            },
        };
        let (n0, n1) = dots[1];
        let minor = match parse_u64_range(&v, n0, n1) {
            Some(x) => x,
            None => {
                let piece = string_of_range(&v, n0, n1);
                return Err(concat("Invalid minor version: ", piece.as_str()));
            },
        };
        let (p0, p1) = dots[2];
        let patch = match parse_u64_range(&v, p0, p1) {
            Some(x) => x,
            None => {
                let piece = string_of_range(&v, p0, p1);
                return Err(concat("Invalid patch version: ", piece.as_str()));
            },
        };
        let (x, y, z) = match self {
            VersionBump::Patch => (major, minor, patch + 1),
            VersionBump::Minor => (major, minor + 1, 0),
            VersionBump::Major => (major + 1, 0, 0),
        };
        Ok(dotted_string(x, y, z))
    }

    /// The lowercase name of this bump kind.
    pub open spec fn name(self) -> Seq<char> {
        match self {
            VersionBump::Patch => "patch"@,
            VersionBump::Minor => "minor"@,
            VersionBump::Major => "major"@,
        }
    }

    /// The lowercase name of this bump kind (its `Display` form).
    pub fn as_str(&self) -> (s: &'static str)
        ensures
            s@ == self.name(),
    {
        match self {
            VersionBump::Patch => "patch",
            VersionBump::Minor => "minor",
            VersionBump::Major => "major",
        }
    }

    /// The bump kind named by an already-lowercased string.
    pub fn from_lowercase(lower: &str) -> (r: Option<VersionBump>)
        ensures
            r == bump_named(lower@),
    {
        if eq_str(lower, "patch") {
            Some(VersionBump::Patch)
        } else if eq_str(lower, "minor") {
            Some(VersionBump::Minor)
        } else if eq_str(lower, "major") {
            Some(VersionBump::Major)
        } else {
            None
        }
    }

    /// Parse a bump kind, case-insensitively.
    pub fn parse_str(s: &str) -> (r: Result<VersionBump, String>)
        ensures
            match r {
                Ok(b) => bump_named(lowercase(s@)) == Some(b),
                Err(e) => bump_named(lowercase(s@)) == None::<VersionBump> && e@
                    == "Invalid version bump: "@ + s@ + ". Use 'patch', 'minor', or 'major'"@,
            },
    {
        let lower = to_lowercase(s);
        match VersionBump::from_lowercase(lower.as_str()) {
            Some(b) => Ok(b),
            None => {
                let head = concat("Invalid version bump: ", s);
                Err(concat(head.as_str(), ". Use 'patch', 'minor', or 'major'"))
            },
        }
    }
}

/// The bump kind with lowercase name `lower`.
pub open spec fn bump_named(lower: Seq<char>) -> Option<VersionBump> {
    if lower == "patch"@ {
        Some(VersionBump::Patch)
    } else if lower == "minor"@ {
        Some(VersionBump::Minor)
    } else if lower == "major"@ {
        Some(VersionBump::Major)
    } else {
        None
    }
}

impl std::str::FromStr for VersionBump {
    type Err = String;

    fn from_str(s: &str) -> Result<Self, Self::Err> {
        VersionBump::parse_str(s)
    }
}

/// `a.b.c` in decimal, as a string.
pub fn dotted_string(a: u64, b: u64, c: u64) -> (s: String)
    ensures
        s@ == dotted(a as nat, b as nat, c as nat),
{
    let sa = u64_to_string(a);
    let sb = u64_to_string(b);
    let sc = u64_to_string(c);
    let s1 = concat(sa.as_str(), ".");
    let s2 = concat(s1.as_str(), sb.as_str());
    let s3 = concat(s2.as_str(), ".");
    concat(s3.as_str(), sc.as_str())
}

/// Type of package / registry.
#[derive(Debug, Clone, Copy, PartialEq, Eq, Structural)]
pub enum PackageType {
    /// Rust crate (crates.io)
    Crate,
    /// npm package (npmjs.com)
    Npm,
    /// Hex package (hex.pm) - Elixir/Erlang
    Hex,
    /// Hackage package (hackage.haskell.org)
    Hackage,
    /// PyPI package (pypi.org)
    PyPi,
}

/// The package type that an already-lowercased name or alias stands for.
pub open spec fn package_type_named(lower: Seq<char>) -> Option<PackageType> {
    if lower == "crate"@ || lower == "cargo"@ || lower == "rust"@ {
        Some(PackageType::Crate)
    } else if lower == "npm"@ || lower == "node"@ || lower == "js"@ {
        Some(PackageType::Npm)
    } else if lower == "hex"@ || lower == "elixir"@ || lower == "erlang"@ {
        Some(PackageType::Hex)
    } else if lower == "hackage"@ || lower == "haskell"@ || lower == "cabal"@ {
        Some(PackageType::Hackage)
    } else if lower == "pypi"@ || lower == "python"@ || lower == "pip"@ {
        Some(PackageType::PyPi)
    } else {
        None
    }
}

impl PackageType {
    pub open spec fn default_registry_spec(self) -> Seq<char> {
        match self {
            PackageType::Crate => "crates.io"@,
            PackageType::Npm => "npmjs.com"@,
            PackageType::Hex => "hex.pm"@,
            PackageType::Hackage => "hackage.haskell.org"@,
            PackageType::PyPi => "pypi.org"@,
        }
    }

    pub open spec fn publish_command_spec(self) -> Seq<char> {
        match self {
            PackageType::Crate => "cargo publish"@,
            PackageType::Npm => "npm publish"@,
            PackageType::Hex => "mix hex.publish"@,
            PackageType::Hackage => "cabal upload"@,
            PackageType::PyPi => "twine upload dist/*"@,
        }
    }

    pub open spec fn token_key_spec(self) -> Seq<char> {
        match self {
            PackageType::Crate => "crates-token"@,
            PackageType::Npm => "npm-token"@,
            PackageType::Hex => "hex-token"@,
            PackageType::Hackage => "hackage-token"@,
            PackageType::PyPi => "pypi-token"@,
        }
    }

    /// Get the default registry for this package type.
    pub fn default_registry(&self) -> (s: &'static str)
        ensures
            s@ == self.default_registry_spec(),
    {
        match self {
            PackageType::Crate => "crates.io",
            PackageType::Npm => "npmjs.com",
            PackageType::Hex => "hex.pm",
            PackageType::Hackage => "hackage.haskell.org",
            PackageType::PyPi => "pypi.org",
        }
    }

    /// Get the manifest filename for this package type.
    pub fn manifest_file(&self) -> (s: &'static str)
        ensures
            s@ == (match self {
                PackageType::Crate => "Cargo.toml"@,
                PackageType::Npm => "package.json"@,
                PackageType::Hex => "mix.exs"@,
                PackageType::Hackage => "*.cabal"@,
                PackageType::PyPi => "pyproject.toml"@,
            }),
    {
        match self {
            PackageType::Crate => "Cargo.toml",
            PackageType::Npm => "package.json",
            PackageType::Hex => "mix.exs",
            PackageType::Hackage => "*.cabal",
            PackageType::PyPi => "pyproject.toml",
        }
    }

    /// Get the secret key name for this package type's token.
    pub fn token_key(&self) -> (s: &'static str)
        ensures
            s@ == self.token_key_spec(),
    {
        match self {
            PackageType::Crate => "crates-token",
            PackageType::Npm => "npm-token",
            PackageType::Hex => "hex-token",
            PackageType::Hackage => "hackage-token",
            PackageType::PyPi => "pypi-token",
        }
    }

    /// Get the publish command for this package type.
    pub fn publish_command(&self) -> (s: &'static str)
        ensures
            s@ == self.publish_command_spec(),
    {
        match self {
            PackageType::Crate => "cargo publish",
            PackageType::Npm => "npm publish",
            PackageType::Hex => "mix hex.publish",
            PackageType::Hackage => "cabal upload",
            PackageType::PyPi => "twine upload dist/*",
        }
    }

    /// The lowercase name (its `Display` form).
    pub fn as_str(&self) -> (s: &'static str)
        ensures
            s@ == (match self {
                PackageType::Crate => "crate"@,
                PackageType::Npm => "npm"@,
                PackageType::Hex => "hex"@,
                PackageType::Hackage => "hackage"@,
                PackageType::PyPi => "pypi"@,
            }),
    {
        match self {
            PackageType::Crate => "crate",
            PackageType::Npm => "npm",
            PackageType::Hex => "hex",
            PackageType::Hackage => "hackage",
            PackageType::PyPi => "pypi",
        }
    }

    /// The package type named by an already-lowercased name or alias.
    pub fn from_lowercase(lower: &str) -> (r: Option<PackageType>)
        ensures
            r == package_type_named(lower@),
    {
        if eq_str(lower, "crate") || eq_str(lower, "cargo") || eq_str(lower, "rust") {
            Some(PackageType::Crate)
        } else if eq_str(lower, "npm") || eq_str(lower, "node") || eq_str(lower, "js") {
            Some(PackageType::Npm)
        } else if eq_str(lower, "hex") || eq_str(lower, "elixir") || eq_str(lower, "erlang") {
            Some(PackageType::Hex)
        } else if eq_str(lower, "hackage") || eq_str(lower, "haskell") || eq_str(lower, "cabal") {
            Some(PackageType::Hackage)
        } else if eq_str(lower, "pypi") || eq_str(lower, "python") || eq_str(lower, "pip") {
            Some(PackageType::PyPi)
        } else {
            None
        }
    }

    /// Parse a package type or alias, case-insensitively.
    pub fn parse_str(s: &str) -> (r: Result<PackageType, String>)
        ensures
            match r {
                Ok(t) => package_type_named(lowercase(s@)) == Some(t),
                Err(e) => package_type_named(lowercase(s@)) == None::<PackageType> && e@
                    == "Unknown package type: "@ + s@,
            },
    {
        let lower = to_lowercase(s);
        match PackageType::from_lowercase(lower.as_str()) {
            Some(t) => Ok(t),
            None => Err(concat("Unknown package type: ", s)),
        }
    }
}

impl std::str::FromStr for PackageType {
    type Err = String;

    fn from_str(s: &str) -> Result<Self, Self::Err> {
        PackageType::parse_str(s)
    }
}

/// Configuration for a package within a repository.
#[derive(Debug, Clone)]
pub struct PackageConfig {
    /// Package name (as published to registry)
    pub name: String,
    /// Type of package
    pub package_type: PackageType,
    /// Path to package root relative to repo root (default: ".")
    pub path: String,
    /// Registry to publish to (default: type's default registry)
    pub registry: Option<String>,
    /// Whether to publish this package (default: true)
    pub publish: bool,
    /// Custom publish command (overrides default)
    pub publish_command: Option<String>,
}

impl PackageConfig {
    /// A package config with the defaults a manifest entry gets for the
    /// fields it leaves out: path `.`, publish on, no registry or
    /// command override.
    pub fn new(name: &str, package_type: PackageType) -> (c: Self)
        ensures
            c.name@ == name@,
            c.package_type == package_type,
            c.path@ == "."@,
            c.registry is None,
            c.publish,
            c.publish_command is None,
    {
        PackageConfig {
            name: name.to_owned(),
            package_type,
            path: ".".to_owned(),
            registry: None,
            publish: true,
            publish_command: None,
        }
    }

    /// Get the registry for this package: the override, else the type's default.
    pub fn registry(&self) -> (s: &str)
        ensures
            s@ == (match &self.registry {
                Some(r) => r@,
                None => self.package_type.default_registry_spec(),
            }),
    {
        match &self.registry {
            Some(r) => r.as_str(),
            None => self.package_type.default_registry(),
        }
    }

    /// Get the publish command: the override, else the type's default.
    pub fn publish_command(&self) -> (s: &str)
        ensures
            s@ == (match &self.publish_command {
                Some(c) => c@,
                None => self.package_type.publish_command_spec(),
            }),
    {
        match &self.publish_command {
            Some(c) => c.as_str(),
            None => self.package_type.publish_command(),
        }
    }

    /// Get the token key for this package's registry.
    pub fn token_key(&self) -> (s: &str)
        ensures
            s@ == self.package_type.token_key_spec(),
    {
        self.package_type.token_key()
    }
}

/// Build configuration for a repository.
#[derive(Debug, Clone)]
pub struct BuildConfig {
    /// Build command to run
    pub command: String,
    /// Working directory (relative to repo root)
    pub cwd: Option<String>,
    /// Environment variables to set
    pub env: Vec<EnvVar>,
    /// Artifacts produced by the build
    pub artifacts: Vec<ArtifactConfig>,
}

/// Environment variable configuration.
#[derive(Debug, Clone)]
pub struct EnvVar {
    pub name: String,
    pub value: String,
}

/// Artifact configuration for build outputs.
#[derive(Debug, Clone)]
pub struct ArtifactConfig {
    /// Path to artifact (relative to repo root, supports globs)
    pub path: String,
    /// Where to upload the artifact
    pub upload_to: Option<ArtifactDestination>,
}

/// Destination for build artifacts.
#[derive(Debug, Clone)]
pub enum ArtifactDestination {
    /// Upload to GitHub Releases
    GithubReleases,
    /// Upload to Codeberg Releases
    CodebergReleases,
    /// Upload to a custom URL
    Custom { url: String },
}

/// Summary of a package for display.
#[derive(Debug, Clone)]
pub struct PackageSummary {
    pub name: String,
    pub package_type: PackageType,
    pub path: String,
    pub registry: String,
    pub local_version: Option<String>,
    pub published_version: Option<String>,
    pub needs_publish: bool,
}

/// Result of a publish operation.
#[derive(Debug, Clone)]
pub struct PublishResult {
    pub name: String,
    pub package_type: PackageType,
    pub registry: String,
    pub version: String,
    pub success: bool,
    pub message: Option<String>,
}

} // verus!
