//! The filesystem paths of hyperforge's configuration.

use vstd::prelude::*;

use crate::text::concat;

verus! {

/// `dir` joined with `name` (`Path::join`): `name` itself when it is
/// absolute or `dir` is empty, else with one `/` between them.
pub open spec fn path_join(dir: Seq<char>, name: Seq<char>) -> Seq<char> {
    if name.len() > 0 && name[0] == '/' {
        name
    } else if dir.len() == 0 {
        name
    } else if dir.last() == '/' {
        dir + name
    } else {
        dir + "/"@ + name
    }
}

/// `Path::join` on strings.
pub fn join_path(dir: &str, name: &str) -> (s: String)
    ensures
        s@ == path_join(dir@, name@),
{
    let nv = crate::text::to_chars(name);
    let dv = crate::text::to_chars(dir);
    if nv.len() > 0 && nv[0] == '/' {
        return name.to_owned();
    }
    if dv.len() == 0 {
        return name.to_owned();
    }
    if dv[dv.len() - 1] == '/' {
        concat(dir, name)
    } else {
        let a = concat(dir, "/");
        concat(a.as_str(), name)
    }
}

/// Manages all filesystem paths for hyperforge configuration.
#[derive(Debug, Clone)]
pub struct HyperforgePaths {
    pub config_dir: String,
}

impl HyperforgePaths {
    /// Paths under the given configuration directory.
    pub fn at(config_dir: &str) -> (p: HyperforgePaths)
        ensures
            p.config_dir@ == config_dir@,
    {
        HyperforgePaths { config_dir: config_dir.to_owned() }
    }

    /// The global `config.yaml`.
    pub fn config_file(&self) -> (s: String)
        ensures
            s@ == path_join(self.config_dir@, "config.yaml"@),
    {
        join_path(self.config_dir.as_str(), "config.yaml")
    }

    /// The orgs directory.
    pub fn orgs_dir(&self) -> (s: String)
        ensures
            s@ == path_join(self.config_dir@, "orgs"@),
    {
        join_path(self.config_dir.as_str(), "orgs")
    }

    /// An org's directory.
    pub fn org_dir(&self, org_name: &str) -> (s: String)
        ensures
            s@ == path_join(path_join(self.config_dir@, "orgs"@), org_name@),
    {
        let d = self.orgs_dir();
        join_path(d.as_str(), org_name)
    }

    /// An org's `repos.yaml`.
    pub fn repos_file(&self, org_name: &str) -> (s: String)
        ensures
            s@ == path_join(path_join(path_join(self.config_dir@, "orgs"@), org_name@), "repos.yaml"@),
    {
        let d = self.org_dir(org_name);
        join_path(d.as_str(), "repos.yaml")
    }

    /// An org's `staged-repos.yaml`.
    pub fn staged_repos_file(&self, org_name: &str) -> (s: String)
        ensures
            s@ == path_join(
                path_join(path_join(self.config_dir@, "orgs"@), org_name@),
                "staged-repos.yaml"@,
            ),
    {
        let d = self.org_dir(org_name);
        join_path(d.as_str(), "staged-repos.yaml")
    }
}

} // verus!
