//! Distribution channel scaffolding: the Homebrew formula and the
//! errors of the dist files.
//!
//! Writing `dist.toml` and editing `Cargo.toml` are done by the program
//! around this library.

use vstd::prelude::*;

use crate::storage::paths::{join_path, path_join};
use crate::text::{ascii_upper_char, concat, push_char, to_chars};

verus! {

/// Errors of the dist scaffolding.
#[derive(Debug, Clone)]
pub enum DistError {
    Io(String),
    Toml(String),
    NotFound(String),
}

impl DistError {
    /// The stable machine-readable code of the error.
    pub fn code(&self) -> (s: &'static str)
        ensures
            s@ == match self {
                DistError::Io(_) => "io"@,
                DistError::Toml(_) => "manifest_parse_error"@,
                DistError::NotFound(_) => "not_found"@,
            },
    {
        match self {
            DistError::Io(_) => "io",
            DistError::Toml(_) => "manifest_parse_error",
            DistError::NotFound(_) => "not_found",
        }
    }

    /// The human-readable description of the error.
    pub fn message(&self) -> (s: String)
        ensures
            s@ == match self {
                DistError::Io(m) => "io error: "@ + m@,
                DistError::Toml(m) => "manifest parse error: "@ + m@,
                DistError::NotFound(m) => "manifest file not found: "@ + m@,
            },
    {
        match self {
            DistError::Io(m) => concat("io error: ", m.as_str()),
            DistError::Toml(m) => concat("manifest parse error: ", m.as_str()),
            DistError::NotFound(m) => concat("manifest file not found: ", m.as_str()),
        }
    }
}

/// The `dist.toml` written when a repo has none.
pub fn default_dist_toml() -> (s: &'static str)
    ensures
        s@ == "# Hyperforge dist.toml \u{2014} distribution metadata (V5PARITY-11).\n#\n# This file is separate from `.hyperforge/config.toml` (per-repo\n# identity) to keep distribution concerns cleanly split.\n\n[dist]\n# Channels this package publishes to. Supported: crates.io, npm, pypi,\n# homebrew, cargo-binstall.\nchannels = []\n\n[binary]\n# Name of the shipped binary(ies), if any.\nnames = []\n"@,
{
    "# Hyperforge dist.toml \u{2014} distribution metadata (V5PARITY-11).\n#\n# This file is separate from `.hyperforge/config.toml` (per-repo\n# identity) to keep distribution concerns cleanly split.\n\n[dist]\n# Channels this package publishes to. Supported: crates.io, npm, pypi,\n# homebrew, cargo-binstall.\nchannels = []\n\n[binary]\n# Name of the shipped binary(ies), if any.\nnames = []\n"
}

/// Where a repo's dist metadata lives: `.hyperforge/dist.toml` in its
/// checkout.
pub fn dist_toml_path(repo_dir: &str) -> (s: String)
    ensures
        s@ == path_join(path_join(repo_dir@, ".hyperforge"@), "dist.toml"@),
{
    let d = join_path(repo_dir, ".hyperforge");
    join_path(d.as_str(), "dist.toml")
}

/// The Homebrew class name of a package name: its `-`/`_`-separated
/// parts, each with its first character ASCII-uppercased, run together.
/// `at_start` says whether the next character begins a part.
pub open spec fn camel(s: Seq<char>, at_start: bool) -> Seq<char>
    decreases s.len(),
{
    if s.len() == 0 {
        Seq::<char>::empty()
    } else if s[0] == '-' || s[0] == '_' {
        camel(s.drop_first(), true)
    } else if at_start {
        seq![ascii_upper_char(s[0])] + camel(s.drop_first(), false)
    } else {
        seq![s[0]] + camel(s.drop_first(), false)
    }
}

/// The class name of `name`.
pub fn class_name(name: &str) -> (s: String)
    ensures
        s@ == camel(name@, true),
{
    let v = to_chars(name);
    let mut out = String::new();
    let mut at_start = true;
    let mut i: usize = 0;
    assert(name@.skip(0) =~= name@);
    while i < v.len()
        invariant
            i <= v@.len(),
            v@ == name@,
            camel(name@, true) == out@ + camel(name@.skip(i as int), at_start),
        decreases v@.len() - i,
    {
        assert(name@.skip(i as int).drop_first() =~= name@.skip(i + 1));
        assert(name@.skip(i as int)[0] == v@[i as int]);
        let c = v[i];
        if c == '-' || c == '_' {
            at_start = true;
        } else if at_start {
            let u = if 'a' <= c && c <= 'z' {
                ((c as u8) - 32) as char
            } else {
                c
            };
            assert(u == ascii_upper_char(c));
            push_char(&mut out, u);
            at_start = false;
        } else {
            push_char(&mut out, c);
        }
        i = i + 1;
    }
    assert(name@.skip(v@.len() as int) =~= Seq::<char>::empty());
    out
}

/// The Homebrew formula for `name` at `version`, shipping `tarball_url`
/// with checksum `sha256`.
pub open spec fn formula_text(
    name: Seq<char>,
    version: Seq<char>,
    tarball_url: Seq<char>,
    sha256: Seq<char>,
    desc: Seq<char>,
) -> Seq<char> {
    "class "@ + camel(name, true) + " < Formula\n  desc \""@ + desc + "\"\n  homepage \"\"\n  url \""@
        + tarball_url + "\"\n  sha256 \""@ + sha256 + "\"\n  version \""@ + version
        + "\"\n\n  def install\n    bin.install \""@ + name + "\"\n  end\nend\n"@
}

/// Generate a Homebrew formula text for `name` at `version`, shipping
/// `tarball_url` with sha256 `sha256`.
pub fn brew_formula(name: &str, version: &str, tarball_url: &str, sha256: &str, desc: &str) -> (s: String)
    ensures
        s@ == formula_text(name@, version@, tarball_url@, sha256@, desc@),
{
    let class = class_name(name);
    let a = concat("class ", class.as_str());
    let b = concat(a.as_str(), " < Formula\n  desc \"");
    let c = concat(b.as_str(), desc);
    let d = concat(c.as_str(), "\"\n  homepage \"\"\n  url \"");
    let e = concat(d.as_str(), tarball_url);
    let f = concat(e.as_str(), "\"\n  sha256 \"");
    let g = concat(f.as_str(), sha256);
    let h = concat(g.as_str(), "\"\n  version \"");
    let i = concat(h.as_str(), version);
    let j = concat(i.as_str(), "\"\n\n  def install\n    bin.install \"");
    let k = concat(j.as_str(), name);
    concat(k.as_str(), "\"\n  end\nend\n")
}

} // verus!
