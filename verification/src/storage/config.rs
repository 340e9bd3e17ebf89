//! The global `config.yaml`: organizations (optionally inheriting from
//! a template org) and workspace directories.

use vstd::prelude::*;

use crate::text::{concat, eq_str, split, starts_with, to_chars};
use crate::types::forge::{ForgesConfig, ForgesModel};
use crate::types::secret::SecretProvider;
use crate::types::{Forge, Visibility};

verus! {

/// Organization configuration as written, before template resolution.
#[derive(Debug, Clone)]
pub struct RawOrgConfig {
    /// Template org to inherit from (makes the other fields optional).
    pub template: Option<String>,
    pub owner: Option<String>,
    pub ssh_key: Option<String>,
    pub origin: Option<Forge>,
    pub forges: Option<ForgesConfig>,
    pub default_visibility: Option<Visibility>,
}

/// Organization configuration, resolved from its template.
#[derive(Debug, Clone)]
pub struct OrgConfig {
    pub owner: String,
    pub ssh_key: String,
    pub origin: Forge,
    pub forges: ForgesConfig,
    pub default_visibility: Visibility,
    /// The org this was templated from (for credential resolution).
    pub credential_source: Option<String>,
}

/// An optional string as plain values.
pub open spec fn opt_str(o: Option<String>) -> Option<Seq<char>> {
    match o {
        Some(s) => Some(s@),
        None => None,
    }
}

/// `git@<ssh_host>:<owner>/<repo>.git`.
pub open spec fn org_ssh_url(host: Seq<char>, owner: Seq<char>, repo: Seq<char>) -> Seq<char> {
    "git@"@ + host + ":"@ + owner + "/"@ + repo + ".git"@
}

impl OrgConfig {
    /// The org name to use for credential lookup: the template org for
    /// a templated org, else `org_name`.
    pub fn credential_org<'a>(&'a self, org_name: &'a str) -> (s: &'a str)
        ensures
            s@ == match self.credential_source {
                Some(c) => c@,
                None => org_name@,
            },
    {
        match &self.credential_source {
            Some(c) => c.as_str(),
            None => org_name,
        }
    }

    /// The SSH host alias for a forge: `<forge>-<org_name>`.
    pub fn ssh_host(&self, forge: &Forge, org_name: &str) -> (s: String)
        ensures
            s@ == forge.name() + "-"@ + org_name@,
    {
        let a = concat(forge.as_str(), "-");
        concat(a.as_str(), org_name)
    }

    /// The SSH URL of a repository on a forge:
    /// `git@<ssh_host>:<owner>/<repo>.git`.
    pub fn ssh_url(&self, forge: &Forge, org_name: &str, repo_name: &str) -> (s: String)
        ensures
            s@ == org_ssh_url(forge.name() + "-"@ + org_name@, self.owner@, repo_name@),
    {
        let host = self.ssh_host(forge, org_name);
        let a = concat("git@", host.as_str());
        let b = concat(a.as_str(), ":");
        let c = concat(b.as_str(), self.owner.as_str());
        let d = concat(c.as_str(), "/");
        let e = concat(d.as_str(), repo_name);
        concat(e.as_str(), ".git")
    }

    /// The SSH URL of a repository on the origin forge.
    pub fn origin_url(&self, org_name: &str, repo_name: &str) -> (s: String)
        ensures
            s@ == org_ssh_url(self.origin.name() + "-"@ + org_name@, self.owner@, repo_name@),
    {
        self.ssh_url(&self.origin, org_name, repo_name)
    }
}

/// An organization's configuration as plain values.
pub struct OrgView {
    pub owner: Seq<char>,
    pub ssh_key: Seq<char>,
    pub origin: Forge,
    pub forges: ForgesModel,
    pub default_visibility: Visibility,
    pub credential_source: Option<Seq<char>>,
}

impl View for OrgConfig {
    type V = OrgView;

    open spec fn view(&self) -> OrgView {
        OrgView {
            owner: self.owner@,
            ssh_key: self.ssh_key@,
            origin: self.origin,
            forges: self.forges@,
            default_visibility: self.default_visibility,
            credential_source: opt_str(self.credential_source),
        }
    }
}

/// A raw org resolved against its template (see `resolve_org`).
pub open spec fn resolve_spec(name: Seq<char>, raw: RawOrgConfig, template: Option<OrgView>) -> Result<OrgView, Seq<char>> {
    match template {
        Some(t) => Ok(
            OrgView {
                owner: match raw.owner {
                    Some(x) => x@,
                    None => t.owner,
                },
                ssh_key: match raw.ssh_key {
                    Some(x) => x@,
                    None => t.ssh_key,
                },
                origin: match raw.origin {
                    Some(x) => x,
                    None => t.origin,
                },
                forges: match raw.forges {
                    Some(x) => x@,
                    None => t.forges,
                },
                default_visibility: match raw.default_visibility {
                    Some(x) => x,
                    None => t.default_visibility,
                },
                credential_source: opt_str(raw.template),
            },
        ),
        None => match first_missing(raw) {
            Some(f) => Err(missing_field_message(name, f)),
            None => Ok(
                OrgView {
                    owner: raw.owner->0@,
                    ssh_key: raw.ssh_key->0@,
                    origin: raw.origin->0,
                    forges: raw.forges->0@,
                    default_visibility: match raw.default_visibility {
                        Some(x) => x,
                        None => Visibility::Public,
                    },
                    credential_source: None,
                },
            ),
        },
    }
}

/// The error of an untemplated org without a required field.
pub open spec fn missing_field_message(name: Seq<char>, field: Seq<char>) -> Seq<char> {
    "Org '"@ + name + "' missing required field '"@ + field + "'"@
}

/// The message of a missing required field.
fn missing_field(name: &str, field: &str) -> (s: String)
    ensures
        s@ == missing_field_message(name@, field@),
{
    let a = concat("Org '", name);
    let b = concat(a.as_str(), "' missing required field '");
    let c = concat(b.as_str(), field);
    concat(c.as_str(), "'")
}

/// Which required field an untemplated org lacks first (owner,
/// ssh_key, origin, forges), if any.
pub open spec fn first_missing(raw: RawOrgConfig) -> Option<Seq<char>> {
    if raw.owner is None {
        Some("owner"@)
    } else if raw.ssh_key is None {
        Some("ssh_key"@)
    } else if raw.origin is None {
        Some("origin"@)
    } else if raw.forges is None {
        Some("forges"@)
    } else {
        None
    }
}

/// Resolve a raw org config, inheriting from `template` where given:
/// every field the raw config leaves out comes from the template, and
/// the template's name becomes the credential source. Without a
/// template every field but the visibility (default public) is
/// required.
pub fn resolve_org(name: &str, raw: &RawOrgConfig, template: Option<&OrgConfig>) -> (r: Result<OrgConfig, String>)
    requires
        template is Some ==> raw.template is Some,
    ensures
        match r {
            Ok(o) => resolve_spec(name@, *raw, match template {
                Some(t) => Some(t@),
                None => None,
            }) == Ok::<OrgView, Seq<char>>(o@),
            Err(e) => resolve_spec(name@, *raw, match template {
                Some(t) => Some(t@),
                None => None,
            }) == Err::<OrgView, Seq<char>>(e@),
        },
        match template {
            Some(t) => r is Ok && ({
                let o = r->Ok_0;
                &&& o.owner@ == match raw.owner {
                    Some(x) => x@,
                    None => t.owner@,
                }
                &&& o.ssh_key@ == match raw.ssh_key {
                    Some(x) => x@,
                    None => t.ssh_key@,
                }
                &&& o.origin == match raw.origin {
                    Some(x) => x,
                    None => t.origin,
                }
                &&& o.forges@ == match raw.forges {
                    Some(x) => x@,
                    None => t.forges@,
                }
                &&& o.default_visibility == match raw.default_visibility {
                    Some(x) => x,
                    None => t.default_visibility,
                }
                &&& opt_str(o.credential_source) == opt_str(raw.template)
            }),
            None => match first_missing(*raw) {
                Some(f) => r is Err && r->Err_0@ == missing_field_message(name@, f),
                None => r is Ok && ({
                    let o = r->Ok_0;
                    &&& o.owner@ == raw.owner->0@
                    &&& o.ssh_key@ == raw.ssh_key->0@
                    &&& o.origin == raw.origin->0
                    &&& o.forges@ == raw.forges->0@
                    &&& o.default_visibility == match raw.default_visibility {
                        Some(x) => x,
                        None => Visibility::Public,
                    }
                    &&& o.credential_source is None
                }),
            },
        },
{
    match template {
        Some(t) => {
            let owner = match &raw.owner {
                Some(x) => x.clone(),
                None => t.owner.clone(),
            };
            let ssh_key = match &raw.ssh_key {
                Some(x) => x.clone(),
                None => t.ssh_key.clone(),
            };
            let origin = match raw.origin {
                Some(x) => x,
                None => t.origin,
            };
            let forges = match &raw.forges {
                Some(x) => x.duplicate(),
                None => t.forges.duplicate(),
            };
            let default_visibility = match raw.default_visibility {
                Some(x) => x,
                None => t.default_visibility,
            };
            let source = match &raw.template {
                Some(x) => x.clone(),
                None => String::new(),
            };
            Ok(
                OrgConfig {
                    owner,
                    ssh_key,
                    origin,
                    forges,
                    default_visibility,
                    credential_source: Some(source),
                },
            )
        },
        None => {
            proof {
                reveal_strlit("owner");
                reveal_strlit("ssh_key");
                reveal_strlit("origin");
                reveal_strlit("forges");
            }
            let owner = match &raw.owner {
                Some(x) => x.clone(),
                None => return Err(missing_field(name, "owner")),
            };
            let ssh_key = match &raw.ssh_key {
                Some(x) => x.clone(),
                None => return Err(missing_field(name, "ssh_key")),
            };
            let origin = match raw.origin {
                Some(x) => x,
                None => return Err(missing_field(name, "origin")),
            };
            let forges = match &raw.forges {
                Some(x) => x.duplicate(),
                None => return Err(missing_field(name, "forges")),
            };
            let default_visibility = match raw.default_visibility {
                Some(x) => x,
                None => Visibility::Public,
            };
            Ok(
                OrgConfig {
                    owner,
                    ssh_key,
                    origin,
                    forges,
                    default_visibility,
                    credential_source: None,
                },
            )
        },
    }
}

/// The resolved orgs as names and plain values.
pub open spec fn resolved_view(v: Seq<(String, OrgConfig)>) -> Seq<(Seq<char>, OrgView)> {
    v.map_values(|p: (String, OrgConfig)| (p.0@, p.1@))
}

/// The first resolved org named `name`.
pub open spec fn find_resolved(acc: Seq<(Seq<char>, OrgView)>, name: Seq<char>) -> Option<int>
    decreases acc.len(),
{
    if acc.len() == 0 {
        None
    } else if acc[0].0 == name {
        Some(0)
    } else {
        match find_resolved(acc.drop_first(), name) {
            Some(i) => Some(i + 1),
            None => None,
        }
    }
}

/// The error of a template that names no resolved org.
pub open spec fn template_missing_message(template: Seq<char>, name: Seq<char>) -> Seq<char> {
    "Template '"@ + template + "' not found for org '"@ + name + "'"@
}

/// The first pass over the first `n` raw orgs: those without a template,
/// resolved in order (the first failure stops it).
pub open spec fn pass_untemplated(raws: Seq<(String, RawOrgConfig)>, n: int) -> Result<Seq<(Seq<char>, OrgView)>, Seq<char>>
    decreases n,
{
    if n <= 0 {
        Ok(Seq::empty())
    } else {
        match pass_untemplated(raws, n - 1) {
            Err(e) => Err(e),
            Ok(acc) => if raws[n - 1].1.template is None {
                match resolve_spec(raws[n - 1].0@, raws[n - 1].1, None) {
                    Ok(o) => Ok(acc.push((raws[n - 1].0@, o))),
                    Err(e) => Err(e),
                }
            } else {
                Ok(acc)
            },
        }
    }
}

/// The second pass over the first `n` raw orgs, after `base`: those
/// with a template, each resolved against the already resolved org of
/// that name (the first failure stops it).
pub open spec fn pass_templated(raws: Seq<(String, RawOrgConfig)>, n: int, base: Seq<(Seq<char>, OrgView)>) -> Result<
    Seq<(Seq<char>, OrgView)>,
    Seq<char>,
>
    decreases n,
{
    if n <= 0 {
        Ok(base)
    } else {
        match pass_templated(raws, n - 1, base) {
            Err(e) => Err(e),
            Ok(acc) => match raws[n - 1].1.template {
                None => Ok(acc),
                Some(t) => match find_resolved(acc, t@) {
                    None => Err(template_missing_message(t@, raws[n - 1].0@)),
                    Some(i) => match resolve_spec(raws[n - 1].0@, raws[n - 1].1, Some(acc[i].1)) {
                        Ok(o) => Ok(acc.push((raws[n - 1].0@, o))),
                        Err(e) => Err(e),
                    },
                },
            },
        }
    }
}

/// All raw orgs resolved: first those without a template, then those
/// with one, each in the given order.
pub open spec fn resolve_all_spec(raws: Seq<(String, RawOrgConfig)>) -> Result<Seq<(Seq<char>, OrgView)>, Seq<char>> {
    match pass_untemplated(raws, raws.len() as int) {
        Err(e) => Err(e),
        Ok(acc) => pass_templated(raws, raws.len() as int, acc),
    }
}

fn find_resolved_exec(acc: &Vec<(String, OrgConfig)>, name: &str) -> (r: Option<usize>)
    ensures
        match find_resolved(resolved_view(acc@), name@) {
            Some(i) => r matches Some(k) && k as int == i && k < acc@.len(),
            None => r is None,
        },
{
    let ghost v = resolved_view(acc@);
    let mut i: usize = 0;
    assert(v.skip(0) =~= v);
    while i < acc.len()
        invariant
            i <= acc@.len(),
            v == resolved_view(acc@),
            find_resolved(v, name@) == match find_resolved(v.skip(i as int), name@) {
                Some(j) => Some(j + i),
                None => None,
            },
        decreases acc@.len() - i,
    {
        assert(v.skip(i as int).drop_first() =~= v.skip(i + 1));
        assert(v.skip(i as int)[0] == v[i as int]);
        if eq_str(acc[i].0.as_str(), name) {
            return Some(i);
        }
        i = i + 1;
    }
    assert(v.skip(i as int).len() == 0);
    None
}

fn copy_org(o: &OrgConfig) -> (r: OrgConfig)
    ensures
        r@ == o@,
{
    OrgConfig {
        owner: o.owner.clone(),
        ssh_key: o.ssh_key.clone(),
        origin: o.origin,
        forges: o.forges.duplicate(),
        default_visibility: o.default_visibility,
        credential_source: match &o.credential_source {
            Some(c) => Some(c.clone()),
            None => None,
        },
    }
}

/// Resolve the raw orgs of `config.yaml` (each name once): first every
/// org without a template, then every org with one, against the
/// already resolved org its template names.
pub fn resolve_orgs(raws: &Vec<(String, RawOrgConfig)>) -> (r: Result<Vec<(String, OrgConfig)>, String>)
    ensures
        match r {
            Ok(v) => resolve_all_spec(raws@) == Ok::<Seq<(Seq<char>, OrgView)>, Seq<char>>(resolved_view(v@)),
            Err(e) => resolve_all_spec(raws@) == Err::<Seq<(Seq<char>, OrgView)>, Seq<char>>(e@),
        },
{
    let mut acc: Vec<(String, OrgConfig)> = Vec::new();
    assert(resolved_view(acc@) =~= Seq::<(Seq<char>, OrgView)>::empty());
    let mut i: usize = 0;
    while i < raws.len()
        invariant
            i <= raws@.len(),
            pass_untemplated(raws@, i as int) == Ok::<Seq<(Seq<char>, OrgView)>, Seq<char>>(resolved_view(acc@)),
        decreases raws@.len() - i,
    {
        let ghost before = resolved_view(acc@);
        if raws[i].1.template.is_none() {
            match resolve_org(raws[i].0.as_str(), &raws[i].1, None) {
                Ok(o) => {
                    let ghost ov = o@;
                    acc.push((raws[i].0.clone(), o));
                    assert(resolved_view(acc@) =~= before.push((raws@[i as int].0@, ov)));
                },
                Err(e) => {
                    proof {
                        lemma_untemplated_err_stays(raws@, i + 1, raws@.len() as int);
                    }
                    return Err(e);
                },
            }
        }
        i = i + 1;
    }
    let ghost base = resolved_view(acc@);
    let mut j: usize = 0;
    while j < raws.len()
        invariant
            j <= raws@.len(),
            i == raws@.len(),
            pass_untemplated(raws@, raws@.len() as int) == Ok::<Seq<(Seq<char>, OrgView)>, Seq<char>>(base),
            pass_templated(raws@, j as int, base) == Ok::<Seq<(Seq<char>, OrgView)>, Seq<char>>(resolved_view(acc@)),
        decreases raws@.len() - j,
    {
        let ghost before = resolved_view(acc@);
        match &raws[j].1.template {
            None => {},
            Some(t) => {
                match find_resolved_exec(&acc, t.as_str()) {
                    None => {
                        let a = concat("Template '", t.as_str());
                        let b = concat(a.as_str(), "' not found for org '");
                        let c = concat(b.as_str(), raws[j].0.as_str());
                        let msg = concat(c.as_str(), "'");
                        proof {
                            lemma_templated_err_stays(raws@, j + 1, raws@.len() as int, base);
                        }
                        return Err(msg);
                    },
                    Some(k) => {
                        let tmpl = copy_org(&acc[k].1);
                        assert(before[k as int].1 == tmpl@);
                        match resolve_org(raws[j].0.as_str(), &raws[j].1, Some(&tmpl)) {
                            Ok(o) => {
                                let ghost ov = o@;
                                acc.push((raws[j].0.clone(), o));
                                assert(resolved_view(acc@) =~= before.push((raws@[j as int].0@, ov)));
                            },
                            Err(e) => {
                                proof {
                                    lemma_templated_err_stays(raws@, j + 1, raws@.len() as int, base);
                                }
                                return Err(e);
                            },
                        }
                    },
                }
            },
        }
        j = j + 1;
    }
    Ok(acc)
}

proof fn lemma_untemplated_err_stays(raws: Seq<(String, RawOrgConfig)>, k: int, n: int)
    requires
        pass_untemplated(raws, k) is Err,
        k <= n,
    ensures
        pass_untemplated(raws, n) == pass_untemplated(raws, k),
    decreases n - k,
{
    if k < n {
        lemma_untemplated_err_stays(raws, k, n - 1);
    }
}

proof fn lemma_templated_err_stays(raws: Seq<(String, RawOrgConfig)>, k: int, n: int, base: Seq<(Seq<char>, OrgView)>)
    requires
        pass_templated(raws, k, base) is Err,
        k <= n,
    ensures
        pass_templated(raws, n, base) == pass_templated(raws, k, base),
    decreases n - k,
{
    if k < n {
        lemma_templated_err_stays(raws, k, n - 1, base);
    }
}

/// The resolved `config.yaml`: organizations by name (each name once)
/// and workspace directories with the org each belongs to.
#[derive(Debug, Clone)]
pub struct GlobalConfig {
    pub default_org: Option<String>,
    pub secret_provider: SecretProvider,
    pub organizations: Vec<(String, OrgConfig)>,
    pub workspaces: Vec<(String, String)>,
}

/// The index of the organization named `name`, if any.
pub open spec fn org_index(orgs: Seq<(String, OrgConfig)>, name: Seq<char>) -> Option<int>
    decreases orgs.len(),
{
    if orgs.len() == 0 {
        None
    } else if orgs[0].0@ == name {
        Some(0)
    } else {
        match org_index(orgs.drop_first(), name) {
            Some(i) => Some(i + 1),
            None => None,
        }
    }
}

/// The non-empty components of a path.
pub open spec fn components(p: Seq<char>) -> Seq<Seq<char>> {
    split(p, '/').filter(|c: Seq<char>| c.len() > 0)
}

/// Whether the path `p` lies in the directory `d` (`Path::starts_with`
/// on absolute paths): the components of `d` begin those of `p`.
pub open spec fn path_within(p: Seq<char>, d: Seq<char>) -> bool {
    components(d).is_prefix_of(components(p))
}

/// The best workspace for `path` among `ws[..n]`: the org of the
/// deepest directory holding it (the last of equally deep ones).
pub open spec fn best_workspace(ws: Seq<(String, String)>, path: Seq<char>) -> Option<(nat, Seq<char>)>
    decreases ws.len(),
{
    if ws.len() == 0 {
        None
    } else {
        let prev = best_workspace(ws.drop_last(), path);
        let d = ws.last().0@;
        if path_within(path, d) {
            match prev {
                Some((depth, org)) => if components(d).len() >= depth {
                    Some((components(d).len(), ws.last().1@))
                } else {
                    prev
                },
                None => Some((components(d).len(), ws.last().1@)),
            }
        } else {
            prev
        }
    }
}

impl Default for GlobalConfig {
    fn default() -> (c: GlobalConfig)
        ensures
            c.default_org is None,
            c.secret_provider == SecretProvider::Keychain,
            c.organizations@.len() == 0,
            c.workspaces@.len() == 0,
    {
        GlobalConfig {
            default_org: None,
            secret_provider: SecretProvider::Keychain,
            organizations: Vec::new(),
            workspaces: Vec::new(),
        }
    }
}

/// The non-empty components of a path.
fn components_of(p: &str) -> (r: Vec<String>)
    ensures
        crate::text::views(r@) == components(p@),
{
    let parts = crate::text::split_str(p, '/');
    let ghost ps = split(p@, '/');
    let ghost pred = |c: Seq<char>| c.len() > 0;
    let mut out: Vec<String> = Vec::new();
    let mut i: usize = 0;
    while i < parts.len()
        invariant
            i <= parts@.len(),
            crate::text::views(parts@) == ps,
            ps == split(p@, '/'),
            pred == (|c: Seq<char>| c.len() > 0),
            crate::text::views(out@) == ps.take(i as int).filter(pred),
        decreases parts@.len() - i,
    {
        proof {
            reveal(Seq::filter);
            assert(ps.take(i + 1).drop_last() =~= ps.take(i as int));
            assert(ps[i as int] == parts@[i as int]@);
        }
        if !parts[i].as_str().is_empty() {
            let ghost prev = out@;
            out.push(parts[i].clone());
            assert(crate::text::views(out@) =~= crate::text::views(prev).push(ps[i as int]));
        }
        assert(crate::text::views(out@) =~= ps.take(i + 1).filter(pred));
        i = i + 1;
    }
    assert(ps.take(ps.len() as int) =~= ps);
    out
}

/// Whether `d`'s components begin `p`'s.
fn within(p: &Vec<String>, d: &Vec<String>) -> (b: bool)
    ensures
        b == crate::text::views(d@).is_prefix_of(crate::text::views(p@)),
{
    if d.len() > p.len() {
        return false;
    }
    let mut k: usize = 0;
    while k < d.len()
        invariant
            d@.len() <= p@.len(),
            k <= d@.len(),
            forall|j: int| 0 <= j < k ==> d@[j]@ == p@[j]@,
        decreases d@.len() - k,
    {
        if !eq_str(d[k].as_str(), p[k].as_str()) {
            assert(crate::text::views(d@)[k as int] != crate::text::views(p@)[k as int]);
            return false;
        }
        k = k + 1;
    }
    assert(crate::text::views(p@).subrange(0, d@.len() as int) =~= crate::text::views(d@));
    true
}

impl GlobalConfig {
    /// An organization's configuration by name.
    pub fn get_org(&self, name: &str) -> (r: Option<&OrgConfig>)
        ensures
            match org_index(self.organizations@, name@) {
                Some(i) => r is Some && *r->0 == self.organizations@[i].1,
                None => r is None,
            },
    {
        let mut i: usize = 0;
        assert(self.organizations@.skip(0) =~= self.organizations@);
        while i < self.organizations.len()
            invariant
                i <= self.organizations@.len(),
                org_index(self.organizations@, name@) == match org_index(
                    self.organizations@.skip(i as int),
                    name@,
                ) {
                    Some(j) => Some(j + i),
                    None => None::<int>,
                },
            decreases self.organizations@.len() - i,
        {
            assert(self.organizations@.skip(i as int).drop_first() =~= self.organizations@.skip(i + 1));
            assert(self.organizations@.skip(i as int)[0] == self.organizations@[i as int]);
            if eq_str(self.organizations[i].0.as_str(), name) {
                return Some(&self.organizations[i].1);
            }
            i = i + 1;
        }
        None
    }

    /// The names of all organizations.
    pub fn org_names(&self) -> (r: Vec<String>)
        ensures
            crate::text::views(r@) == self.organizations@.map_values(|e: (String, OrgConfig)| e.0@),
    {
        let mut out: Vec<String> = Vec::new();
        let mut i: usize = 0;
        while i < self.organizations.len()
            invariant
                i <= self.organizations@.len(),
                crate::text::views(out@) == self.organizations@.take(i as int).map_values(
                    |e: (String, OrgConfig)| e.0@,
                ),
            decreases self.organizations@.len() - i,
        {
            let ghost prev = out@;
            out.push(self.organizations[i].0.clone());
            assert(crate::text::views(out@) =~= crate::text::views(prev).push(self.organizations@[i as int].0@));
            assert(self.organizations@.take(i + 1) =~= self.organizations@.take(i as int).push(self.organizations@[i as int]));
            assert(crate::text::views(out@) =~= self.organizations@.take(i + 1).map_values(
                |e: (String, OrgConfig)| e.0@,
            ));
            i = i + 1;
        }
        assert(self.organizations@.take(self.organizations@.len() as int) =~= self.organizations@);
        out
    }

    /// The org of the workspace holding `path`: the deepest workspace
    /// directory that `path` lies in. Paths are taken as given; the
    /// caller canonicalizes `path` and the workspace directories.
    pub fn resolve_workspace(&self, path: &str) -> (r: Option<String>)
        ensures
            match best_workspace(self.workspaces@, path@) {
                Some((_, org)) => r is Some && r->0@ == org,
                None => r is None,
            },
    {
        let pc = components_of(path);
        let mut best: Option<(usize, usize)> = None;
        let mut i: usize = 0;
        while i < self.workspaces.len()
            invariant
                i <= self.workspaces@.len(),
                crate::text::views(pc@) == components(path@),
                match best_workspace(self.workspaces@.take(i as int), path@) {
                    Some((depth, org)) => match best {
                        Some((bd, bi)) => bd == depth && bi < i && self.workspaces@[bi as int].1@ == org,
                        None => false,
                    },
                    None => best is None,
                },
            decreases self.workspaces@.len() - i,
        {
            assert(self.workspaces@.take(i + 1).drop_last() =~= self.workspaces@.take(i as int));
            let dc = components_of(self.workspaces[i].0.as_str());
            if within(&pc, &dc) {
                match best {
                    Some((depth, _)) => {
                        if dc.len() >= depth {
                            best = Some((dc.len(), i));
                        }
                    },
                    None => {
                        best = Some((dc.len(), i));
                    },
                }
            }
            i = i + 1;
        }
        assert(self.workspaces@.take(self.workspaces@.len() as int) =~= self.workspaces@);
        match best {
            Some((_, k)) => Some(self.workspaces[k].1.clone()),
            None => None,
        }
    }
}

/// `dir` with a leading `~` expanded to `home`: `~/x` becomes
/// `home/x` and `~` becomes `home`; unchanged when there is no home.
pub open spec fn expand_tilde_spec(dir: Seq<char>, home: Option<Seq<char>>) -> Seq<char> {
    match home {
        None => dir,
        Some(h) => if "~/"@.is_prefix_of(dir) {
            crate::storage::paths::path_join(h, dir.skip(2))
        } else if dir == "~"@ {
            h
        } else {
            dir
        },
    }
}

/// Expand a leading tilde in a directory path, given the home
/// directory (if any).
pub fn expand_tilde(dir: &str, home: Option<&str>) -> (s: String)
    ensures
        s@ == expand_tilde_spec(dir@, match home {
            Some(h) => Some(h@),
            None => None,
        }),
{
    let h = match home {
        Some(h) => h,
        None => return dir.to_owned(),
    };
    proof {
        reveal_strlit("~/");
        reveal_strlit("~");
    }
    if starts_with(dir, "~/") {
        let v = to_chars(dir);
        let rest = crate::text::string_of_range(&v, 2, v.len());
        assert(v@.subrange(2, v@.len() as int) =~= dir@.skip(2));
        crate::storage::paths::join_path(h, rest.as_str())
    } else if eq_str(dir, "~") {
        h.to_owned()
    } else {
        dir.to_owned()
    }
}

/// The workspace directories with a leading tilde expanded to `home`.
pub open spec fn expanded_workspaces(ws: Seq<(String, String)>, home: Option<Seq<char>>) -> Seq<(Seq<char>, Seq<char>)> {
    ws.map_values(|w: (String, String)| (expand_tilde_spec(w.0@, home), w.1@))
}

impl GlobalConfig {
    /// The global config from what `config.yaml` holds: the orgs
    /// resolved (see `resolve_orgs`) and the workspace directories with a
    /// leading tilde expanded (the home directory is the caller's).
    pub fn from_raw(
        default_org: Option<String>,
        secret_provider: SecretProvider,
        raw_orgs: &Vec<(String, RawOrgConfig)>,
        raw_workspaces: &Vec<(String, String)>,
        home: Option<&str>,
    ) -> (r: Result<GlobalConfig, String>)
        ensures
            match r {
                Ok(g) => {
                    &&& resolve_all_spec(raw_orgs@) == Ok::<Seq<(Seq<char>, OrgView)>, Seq<char>>(
                        resolved_view(g.organizations@),
                    )
                    &&& opt_str(g.default_org) == opt_str(default_org)
                    &&& g.secret_provider == secret_provider
                    &&& g.workspaces@.map_values(|w: (String, String)| (w.0@, w.1@)) == expanded_workspaces(
                        raw_workspaces@,
                        match home {
                            Some(h) => Some(h@),
                            None => None,
                        },
                    )
                },
                Err(e) => resolve_all_spec(raw_orgs@) == Err::<Seq<(Seq<char>, OrgView)>, Seq<char>>(e@),
            },
    {
        let organizations = match resolve_orgs(raw_orgs) {
            Ok(v) => v,
            Err(e) => {
                return Err(e);
            },
        };
        let ghost hv = match home {
            Some(h) => Some(h@),
            None => None,
        };
        let mut workspaces: Vec<(String, String)> = Vec::new();
        let mut i: usize = 0;
        while i < raw_workspaces.len()
            invariant
                i <= raw_workspaces@.len(),
                hv == match home {
                    Some(h) => Some(h@),
                    None => None::<Seq<char>>,
                },
                workspaces@.map_values(|w: (String, String)| (w.0@, w.1@)) == expanded_workspaces(
                    raw_workspaces@.take(i as int),
                    hv,
                ),
            decreases raw_workspaces@.len() - i,
        {
            let ghost before = workspaces@.map_values(|w: (String, String)| (w.0@, w.1@));
            let dir = expand_tilde(raw_workspaces[i].0.as_str(), home);
            let org = raw_workspaces[i].1.clone();
            let ghost item = (dir@, org@);
            assert(item == (expand_tilde_spec(raw_workspaces@[i as int].0@, hv), raw_workspaces@[i as int].1@));
            workspaces.push((dir, org));
            assert(raw_workspaces@.take(i + 1) =~= raw_workspaces@.take(i as int).push(raw_workspaces@[i as int]));
            assert(expanded_workspaces(raw_workspaces@.take(i + 1), hv) =~= expanded_workspaces(
                raw_workspaces@.take(i as int),
                hv,
            ).push(item));
            assert(workspaces@.map_values(|w: (String, String)| (w.0@, w.1@)) =~= before.push(item));
            assert(workspaces@.map_values(|w: (String, String)| (w.0@, w.1@)) =~= expanded_workspaces(
                raw_workspaces@.take(i + 1),
                hv,
            ));
            i = i + 1;
        }
        assert(raw_workspaces@.take(raw_workspaces@.len() as int) =~= raw_workspaces@);
        Ok(GlobalConfig { default_org, secret_provider, organizations, workspaces })
    }
}

/// The names of raw orgs.
pub open spec fn raw_names(raws: Seq<(String, RawOrgConfig)>) -> Seq<Seq<char>> {
    raws.map_values(|p: (String, RawOrgConfig)| p.0@)
}

/// The names of resolved orgs.
pub open spec fn view_names(v: Seq<(Seq<char>, OrgView)>) -> Seq<Seq<char>> {
    v.map_values(|p: (Seq<char>, OrgView)| p.0)
}

proof fn lemma_pass_untemplated_names(raws: Seq<(String, RawOrgConfig)>, n: int)
    requires
        0 <= n <= raws.len(),
        pass_untemplated(raws, n) is Ok,
    ensures
        view_names(pass_untemplated(raws, n)->Ok_0) == raw_names(
            raws.take(n).filter(|p: (String, RawOrgConfig)| p.1.template is None),
        ),
    decreases n,
{
    reveal(Seq::filter);
    let f = |p: (String, RawOrgConfig)| p.1.template is None;
    if n > 0 {
        lemma_pass_untemplated_names(raws, n - 1);
        assert(raws.take(n).drop_last() =~= raws.take(n - 1));
        assert(raws.take(n).last() == raws[n - 1]);
        let prev = pass_untemplated(raws, n - 1)->Ok_0;
        if f(raws[n - 1]) {
            assert(raws.take(n).filter(f) == raws.take(n - 1).filter(f).push(raws[n - 1]));
            assert(view_names(pass_untemplated(raws, n)->Ok_0) =~= view_names(prev).push(raws[n - 1].0@));
            assert(raw_names(raws.take(n).filter(f)) =~= raw_names(raws.take(n - 1).filter(f)).push(raws[n - 1].0@));
        } else {
            assert(raws.take(n).filter(f) == raws.take(n - 1).filter(f));
        }
    } else {
        assert(raws.take(0).filter(f) =~= Seq::<(String, RawOrgConfig)>::empty());
        assert(view_names(Seq::<(Seq<char>, OrgView)>::empty()) =~= Seq::<Seq<char>>::empty());
        assert(raw_names(Seq::<(String, RawOrgConfig)>::empty()) =~= Seq::<Seq<char>>::empty());
    }
}

proof fn lemma_pass_templated_names(raws: Seq<(String, RawOrgConfig)>, n: int, base: Seq<(Seq<char>, OrgView)>)
    requires
        0 <= n <= raws.len(),
        pass_templated(raws, n, base) is Ok,
    ensures
        view_names(pass_templated(raws, n, base)->Ok_0) == view_names(base) + raw_names(
            raws.take(n).filter(|p: (String, RawOrgConfig)| p.1.template is Some),
        ),
    decreases n,
{
    reveal(Seq::filter);
    let f = |p: (String, RawOrgConfig)| p.1.template is Some;
    if n > 0 {
        lemma_pass_templated_names(raws, n - 1, base);
        assert(raws.take(n).drop_last() =~= raws.take(n - 1));
        assert(raws.take(n).last() == raws[n - 1]);
        let prev = pass_templated(raws, n - 1, base)->Ok_0;
        if f(raws[n - 1]) {
            assert(raws.take(n).filter(f) == raws.take(n - 1).filter(f).push(raws[n - 1]));
            assert(view_names(pass_templated(raws, n, base)->Ok_0) =~= view_names(prev).push(raws[n - 1].0@));
            assert(raw_names(raws.take(n).filter(f)) =~= raw_names(raws.take(n - 1).filter(f)).push(raws[n - 1].0@));
        } else {
            assert(raws.take(n).filter(f) == raws.take(n - 1).filter(f));
        }
    } else {
        assert(raws.take(0).filter(f) =~= Seq::<(String, RawOrgConfig)>::empty());
        assert(raw_names(Seq::<(String, RawOrgConfig)>::empty()) =~= Seq::<Seq<char>>::empty());
        assert(view_names(base) + Seq::<Seq<char>>::empty() =~= view_names(base));
    }
}

/// A successful resolution holds every org of the config once: first
/// the untemplated ones, then the templated ones, each in the given
/// order.
pub proof fn lemma_resolution_keeps_every_org(raws: Seq<(String, RawOrgConfig)>)
    requires
        resolve_all_spec(raws) is Ok,
    ensures
        view_names(resolve_all_spec(raws)->Ok_0) == raw_names(
            raws.filter(|p: (String, RawOrgConfig)| p.1.template is None),
        ) + raw_names(raws.filter(|p: (String, RawOrgConfig)| p.1.template is Some)),
        resolve_all_spec(raws)->Ok_0.len() == raws.len(),
{
    let n = raws.len() as int;
    assert(raws.take(n) =~= raws);
    lemma_pass_untemplated_names(raws, n);
    let base = pass_untemplated(raws, n)->Ok_0;
    lemma_pass_templated_names(raws, n, base);
    let f = |p: (String, RawOrgConfig)| p.1.template is None;
    let g = |p: (String, RawOrgConfig)| p.1.template is Some;
    lemma_filter_partition_len(raws, f, g);
    let v = resolve_all_spec(raws)->Ok_0;
    assert(view_names(v).len() == v.len());
    assert(raw_names(raws.filter(f)).len() == raws.filter(f).len());
    assert(raw_names(raws.filter(g)).len() == raws.filter(g).len());
}

proof fn lemma_filter_partition_len(
    s: Seq<(String, RawOrgConfig)>,
    f: spec_fn((String, RawOrgConfig)) -> bool,
    g: spec_fn((String, RawOrgConfig)) -> bool,
)
    requires
        forall|x: (String, RawOrgConfig)| #[trigger] f(x) == !g(x),
    ensures
        s.filter(f).len() + s.filter(g).len() == s.len(),
    decreases s.len(),
{
    reveal(Seq::filter);
    if s.len() > 0 {
        lemma_filter_partition_len(s.drop_last(), f, g);
    }
}

} // verus!
