//! The v5 config schemas: global `config.yaml`, per-org
//! `orgs/<OrgName>.yaml`, per-workspace `workspaces/<WorkspaceName>.yaml`.
//!
//! Reading and writing the YAML files is done by the program around
//! this library; the typed values and the rules over them live here.

use vstd::prelude::*;

use crate::text::{concat, eq_str, find_char, first_index, string_of_range, to_chars};

verus! {

/// An org name.
#[derive(Debug, Clone, PartialEq, Eq)]
pub struct OrgName(pub String);

/// A repo name.
#[derive(Debug, Clone, PartialEq, Eq)]
pub struct RepoName(pub String);

/// A workspace name.
#[derive(Debug, Clone, PartialEq, Eq)]
pub struct WorkspaceName(pub String);

/// A remote URL.
#[derive(Debug, Clone, PartialEq, Eq)]
pub struct RemoteUrl(pub String);

/// A domain name.
#[derive(Debug, Clone, PartialEq, Eq)]
pub struct DomainName(pub String);

/// A filesystem path.
#[derive(Debug, Clone, PartialEq, Eq)]
pub struct FsPath(pub String);

impl OrgName {
    pub fn as_str(&self) -> (s: &str)
        ensures
            s@ == self.0@,
    {
        self.0.as_str()
    }
}

impl RepoName {
    pub fn as_str(&self) -> (s: &str)
        ensures
            s@ == self.0@,
    {
        self.0.as_str()
    }
}

impl WorkspaceName {
    pub fn as_str(&self) -> (s: &str)
        ensures
            s@ == self.0@,
    {
        self.0.as_str()
    }
}

impl RemoteUrl {
    pub fn as_str(&self) -> (s: &str)
        ensures
            s@ == self.0@,
    {
        self.0.as_str()
    }
}

impl DomainName {
    pub fn as_str(&self) -> (s: &str)
        ensures
            s@ == self.0@,
    {
        self.0.as_str()
    }
}

impl FsPath {
    pub fn as_str(&self) -> (s: &str)
        ensures
            s@ == self.0@,
    {
        self.0.as_str()
    }
}

/// Forge providers known to v1, in their order.
#[derive(Debug, Clone, Copy, PartialEq, Eq, Structural)]
pub enum ProviderKind {
    Github,
    Codeberg,
    Gitlab,
}

/// Credential kinds known to v1.
#[derive(Debug, Clone, Copy, PartialEq, Eq, Structural)]
pub enum CredentialType {
    Token,
    SshKey,
}

/// A credential: a `secrets://…` ref or a filesystem path, and its kind.
#[derive(Debug, Clone)]
pub struct CredentialEntry {
    pub key: String,
    pub cred_type: CredentialType,
}

/// Remote URL, optionally overriding the domain → provider map.
#[derive(Debug, Clone)]
pub struct Remote {
    pub url: RemoteUrl,
    pub provider: Option<ProviderKind>,
}

/// `RepoRef { org, name }`.
#[derive(Debug, Clone)]
pub struct RepoRef {
    pub org: OrgName,
    pub name: RepoName,
}

/// What the shorthand `<org>/<name>` reads as: split at the first `/`,
/// both segments non-empty; else the error message.
pub open spec fn shorthand_spec(s: Seq<char>) -> Result<(Seq<char>, Seq<char>), Seq<char>> {
    match first_index(s, '/') {
        None => Err("invalid RepoRef shorthand (expected '<org>/<name>'): "@ + s),
        Some(i) => if i == 0 || i == s.len() - 1 {
            Err("invalid RepoRef shorthand (empty segment): "@ + s)
        } else {
            Ok((s.take(i), s.skip(i + 1)))
        },
    }
}

impl RepoRef {
    /// Read the shorthand form `<org>/<name>`.
    pub fn parse_shorthand(s: &str) -> (r: Result<RepoRef, String>)
        ensures
            match r {
                Ok(rr) => shorthand_spec(s@) == Ok::<(Seq<char>, Seq<char>), Seq<char>>(
                    (rr.org.0@, rr.name.0@),
                ),
                Err(e) => shorthand_spec(s@) == Err::<(Seq<char>, Seq<char>), Seq<char>>(e@),
            },
    {
        let v = to_chars(s);
        assert(v@.subrange(0, v@.len() as int) =~= v@);
        match find_char(&v, 0, v.len(), '/') {
            None => Err(concat("invalid RepoRef shorthand (expected '<org>/<name>'): ", s)),
            Some(i) => {
                if i == 0 || i == v.len() - 1 {
                    Err(concat("invalid RepoRef shorthand (empty segment): ", s))
                } else {
                    let org = string_of_range(&v, 0, i);
                    let name = string_of_range(&v, i + 1, v.len());
                    assert(v@.subrange(0, i as int) =~= s@.take(i as int));
                    assert(v@.subrange(i + 1, v@.len() as int) =~= s@.skip(i + 1));
                    Ok(RepoRef { org: OrgName(org), name: RepoName(name) })
                }
            },
        }
    }
}

/// A set of providers (an ordered set of three possible members).
#[derive(Debug, Clone, Copy, PartialEq, Eq, Structural)]
pub struct ProviderSet {
    pub github: bool,
    pub codeberg: bool,
    pub gitlab: bool,
}

/// Whether the set holds `p`.
pub open spec fn set_has(s: ProviderSet, p: ProviderKind) -> bool {
    match p {
        ProviderKind::Github => s.github,
        ProviderKind::Codeberg => s.codeberg,
        ProviderKind::Gitlab => s.gitlab,
    }
}

impl ProviderSet {
    /// The empty set.
    pub fn new() -> (s: ProviderSet)
        ensures
            forall|p: ProviderKind| !set_has(s, p),
    {
        ProviderSet { github: false, codeberg: false, gitlab: false }
    }

    /// Whether the set holds `p`.
    pub fn contains(&self, p: ProviderKind) -> (b: bool)
        ensures
            b == set_has(*self, p),
    {
        match p {
            ProviderKind::Github => self.github,
            ProviderKind::Codeberg => self.codeberg,
            ProviderKind::Gitlab => self.gitlab,
        }
    }

    /// Add `p`.
    pub fn insert(&mut self, p: ProviderKind)
        ensures
            forall|q: ProviderKind| set_has(*final(self), q) == (set_has(*old(self), q) || q == p),
    {
        match p {
            ProviderKind::Github => self.github = true,
            ProviderKind::Codeberg => self.codeberg = true,
            ProviderKind::Gitlab => self.gitlab = true,
        }
    }

    /// Add every member of `other`.
    pub fn extend(&mut self, other: ProviderSet)
        ensures
            forall|q: ProviderKind| set_has(*final(self), q) == (set_has(*old(self), q) || set_has(other, q)),
    {
        self.github = self.github || other.github;
        self.codeberg = self.codeberg || other.codeberg;
        self.gitlab = self.gitlab || other.gitlab;
    }

    /// Whether the set is empty.
    pub fn is_empty(&self) -> (b: bool)
        ensures
            b == forall|q: ProviderKind| !set_has(*self, q),
    {
        proof {
            assert(set_has(*self, ProviderKind::Github) == self.github);
            assert(set_has(*self, ProviderKind::Codeberg) == self.codeberg);
            assert(set_has(*self, ProviderKind::Gitlab) == self.gitlab);
        }
        !self.github && !self.codeberg && !self.gitlab
    }
}

/// Lifecycle phases a repo can occupy; `Active` is the default.
#[derive(Debug, Clone, Copy, PartialEq, Eq, Structural)]
pub enum RepoLifecycle {
    Active,
    Dismissed,
}

impl RepoLifecycle {
    /// Whether this is the default phase (`Active`), which is left out
    /// when written.
    pub fn is_default(&self) -> (b: bool)
        ensures
            b == (*self == RepoLifecycle::Active),
    {
        match self {
            RepoLifecycle::Active => true,
            RepoLifecycle::Dismissed => false,
        }
    }
}

impl Default for RepoLifecycle {
    fn default() -> (r: RepoLifecycle)
        ensures
            r == RepoLifecycle::Active,
    {
        RepoLifecycle::Active
    }
}

/// Local declaration of portable metadata. Only declared fields take
/// part in drift comparisons and pushes.
#[derive(Debug, Clone)]
pub struct RepoMetadataLocal {
    pub default_branch: Option<String>,
    pub description: Option<String>,
    pub archived: Option<bool>,
    pub visibility: Option<String>,
    /// `Active` (normal) or `Dismissed` (soft-deleted).
    pub lifecycle: RepoLifecycle,
    /// Providers where privatization succeeded during soft-delete.
    pub privatized_on: ProviderSet,
    /// When true, delete and purge refuse this repo.
    pub protected: bool,
}

impl Default for RepoMetadataLocal {
    fn default() -> (r: RepoMetadataLocal)
        ensures
            r.default_branch is None,
            r.description is None,
            r.archived is None,
            r.visibility is None,
            r.lifecycle == RepoLifecycle::Active,
            forall|p: ProviderKind| !set_has(r.privatized_on, p),
            !r.protected,
    {
        RepoMetadataLocal {
            default_branch: None,
            description: None,
            archived: None,
            visibility: None,
            lifecycle: RepoLifecycle::Active,
            privatized_on: ProviderSet::new(),
            protected: false,
        }
    }
}

/// A repo declared on an org.
#[derive(Debug, Clone)]
pub struct OrgRepo {
    pub name: RepoName,
    pub remotes: Vec<Remote>,
    /// Declared-local values of the portable metadata.
    pub metadata: Option<RepoMetadataLocal>,
    /// The forges this repo is scoped to; `None` means all of them.
    pub forges: Option<Vec<ProviderKind>>,
}

impl OrgRepo {
    /// The canonical / primary remote: by position, `remotes[0]`.
    pub fn canonical_remote(&self) -> (r: Option<&Remote>)
        ensures
            match r {
                Some(x) => self.remotes@.len() > 0 && *x == self.remotes@[0],
                None => self.remotes@.len() == 0,
            },
    {
        if self.remotes.len() > 0 {
            Some(&self.remotes[0])
        } else {
            None
        }
    }
}

/// A workspace entry: the shorthand `<org>/<name>` or a `{ref, dir}`
/// object.
#[derive(Debug, Clone)]
pub enum WorkspaceRepo {
    Shorthand(String),
    Object { reference: RepoRef, dir: String },
}

/// The domain → provider map of the global config: each domain at most
/// once.
#[derive(Debug, Clone)]
pub struct ProviderMap {
    pub entries: Vec<(DomainName, ProviderKind)>,
}

/// The provider mapped to `host`.
pub open spec fn map_lookup(entries: Seq<(DomainName, ProviderKind)>, host: Seq<char>) -> Option<
    ProviderKind,
>
    decreases entries.len(),
{
    if entries.len() == 0 {
        None
    } else if entries.last().0.0@ == host {
        Some(entries.last().1)
    } else {
        map_lookup(entries.drop_last(), host)
    }
}

/// No domain is mapped twice.
pub open spec fn distinct_domains(entries: Seq<(DomainName, ProviderKind)>) -> bool {
    forall|i: int, j: int|
        0 <= i < j < entries.len() ==> #[trigger] entries[i].0.0@ != #[trigger] entries[j].0.0@
}

impl ProviderMap {
    /// The empty map.
    pub fn new() -> (m: ProviderMap)
        ensures
            m.entries@.len() == 0,
    {
        ProviderMap { entries: Vec::new() }
    }

    /// The provider mapped to `host`, if any.
    pub fn get(&self, host: &str) -> (r: Option<ProviderKind>)
        ensures
            r == map_lookup(self.entries@, host@),
    {
        let mut i = self.entries.len();
        assert(self.entries@.take(i as int) =~= self.entries@);
        while i > 0
            invariant
                i <= self.entries@.len(),
                map_lookup(self.entries@, host@) == map_lookup(self.entries@.take(i as int), host@),
            decreases i,
        {
            assert(self.entries@.take(i as int).drop_last() =~= self.entries@.take(i - 1));
            if eq_str(self.entries[i - 1].0.as_str(), host) {
                return Some(self.entries[i - 1].1);
            }
            i = i - 1;
        }
        None
    }

    /// Map `domain` to `provider`, replacing an earlier mapping.
    pub fn insert(&mut self, domain: &str, provider: ProviderKind)
        requires
            distinct_domains(old(self).entries@),
        ensures
            distinct_domains(final(self).entries@),
            map_lookup(final(self).entries@, domain@) == Some(provider),
            forall|h: Seq<char>|
                h != domain@ ==> map_lookup(final(self).entries@, h) == map_lookup(
                    old(self).entries@,
                    h,
                ),
    {
        let ghost old_e = self.entries@;
        let mut i: usize = 0;
        while i < self.entries.len()
            invariant
                i <= self.entries@.len(),
                self.entries@ == old_e,
                old_e == old(self).entries@,
                distinct_domains(old_e),
                forall|j: int| 0 <= j < i ==> self.entries@[j].0.0@ != domain@,
            decreases self.entries@.len() - i,
        {
            if eq_str(self.entries[i].0.as_str(), domain) {
                let ne = (DomainName(domain.to_owned()), provider);
                proof {
                    lemma_lookup_update(old_e, i as int, ne);
                }
                self.entries.set(i, ne);
                assert(self.entries@ == old_e.update(i as int, ne));
                assert(ne.0.0@ == domain@);
                assert forall|h: Seq<char>| h != domain@ implies map_lookup(self.entries@, h) == map_lookup(
                    old_e,
                    h,
                ) by {
                    assert(map_lookup(old_e.update(i as int, ne), h) == map_lookup(old_e, h));
                }
                return;
            }
            i = i + 1;
        }
        self.entries.push((DomainName(domain.to_owned()), provider));
        proof {
            assert(self.entries@.drop_last() =~= old_e);
            assert forall|a: int, b: int| 0 <= a < b < self.entries@.len() implies #[trigger] self.entries@[a].0.0@
                != #[trigger] self.entries@[b].0.0@ by {
                if b < old_e.len() {
                    assert(self.entries@[a] == old_e[a] && self.entries@[b] == old_e[b]);
                } else {
                    assert(self.entries@[a] == old_e[a]);
                }
            }
            assert forall|h: Seq<char>| h != domain@ implies map_lookup(self.entries@, h) == map_lookup(
                old_e,
                h,
            ) by {}
        }
    }
}

proof fn lemma_lookup_update(
    e: Seq<(DomainName, ProviderKind)>,
    i: int,
    ne: (DomainName, ProviderKind),
)
    requires
        0 <= i < e.len(),
        e[i].0.0@ == ne.0.0@,
        distinct_domains(e),
    ensures
        distinct_domains(e.update(i, ne)),
        map_lookup(e.update(i, ne), ne.0.0@) == Some(ne.1),
        forall|h: Seq<char>| h != ne.0.0@ ==> map_lookup(e.update(i, ne), h) == map_lookup(e, h),
    decreases e.len(),
{
    let u = e.update(i, ne);
    assert forall|a: int, b: int| 0 <= a < b < u.len() implies #[trigger] u[a].0.0@ != #[trigger] u[b].0.0@ by {
        if a != i && b != i {
            assert(u[a] == e[a] && u[b] == e[b]);
        } else if a == i {
            assert(u[b] == e[b]);
        } else {
            assert(u[a] == e[a]);
        }
    }
    if i == e.len() - 1 {
        assert(u.drop_last() =~= e.drop_last());
        assert(u.last() == ne);
        assert forall|h: Seq<char>| h != ne.0.0@ implies map_lookup(u, h) == map_lookup(e, h) by {
            assert(e.last().0.0@ == ne.0.0@);
        }
    } else {
        assert(u.drop_last() =~= e.drop_last().update(i, ne));
        assert(e.last().0.0@ != ne.0.0@) by {
            assert(e[e.len() - 1] == e.last());
        }
        assert(distinct_domains(e.drop_last()));
        lemma_lookup_update(e.drop_last(), i, ne);
        assert(u.last() == e.last());
        assert forall|h: Seq<char>| h != ne.0.0@ implies map_lookup(u, h) == map_lookup(e, h) by {
            assert(map_lookup(u.drop_last(), h) == map_lookup(e.drop_last(), h));
        }
    }
}

/// Global `config.yaml`.
#[derive(Debug, Clone)]
pub struct GlobalConfig {
    pub default_workspace: Option<WorkspaceName>,
    pub provider_map: ProviderMap,
}

/// An org's single-forge block.
#[derive(Debug, Clone)]
pub struct ForgeBlock {
    pub provider: ProviderKind,
    pub credentials: Vec<CredentialEntry>,
}

/// The credentials an org holds for one provider.
#[derive(Debug, Clone)]
pub struct ForgeProviderBlock {
    pub credentials: Vec<CredentialEntry>,
}

/// The forges an org is on, each with its credentials (at most one
/// block per provider, in provider order).
#[derive(Debug, Clone)]
pub struct OrgForges {
    pub github: Option<ForgeProviderBlock>,
    pub codeberg: Option<ForgeProviderBlock>,
    pub gitlab: Option<ForgeProviderBlock>,
}

/// The block of `p`.
pub open spec fn forge_block(f: OrgForges, p: ProviderKind) -> Option<ForgeProviderBlock> {
    match p {
        ProviderKind::Github => f.github,
        ProviderKind::Codeberg => f.codeberg,
        ProviderKind::Gitlab => f.gitlab,
    }
}

/// The first provider, in provider order, that the org is on.
pub open spec fn first_provider(f: OrgForges) -> Option<ProviderKind> {
    if f.github is Some {
        Some(ProviderKind::Github)
    } else if f.codeberg is Some {
        Some(ProviderKind::Codeberg)
    } else if f.gitlab is Some {
        Some(ProviderKind::Gitlab)
    } else {
        None
    }
}

impl OrgForges {
    /// No forges.
    pub fn new() -> (f: OrgForges)
        ensures
            forall|p: ProviderKind| forge_block(f, p) is None,
    {
        OrgForges { github: None, codeberg: None, gitlab: None }
    }

    /// Set the block of `p`.
    pub fn insert(&mut self, p: ProviderKind, block: ForgeProviderBlock)
        ensures
            forge_block(*final(self), p) == Some(block),
            forall|q: ProviderKind| q != p ==> forge_block(*final(self), q) == forge_block(*old(self), q),
    {
        match p {
            ProviderKind::Github => self.github = Some(block),
            ProviderKind::Codeberg => self.codeberg = Some(block),
            ProviderKind::Gitlab => self.gitlab = Some(block),
        }
    }

    /// The block of `p`, if the org is on it.
    pub fn get(&self, p: ProviderKind) -> (r: Option<&ForgeProviderBlock>)
        ensures
            match r {
                Some(b) => forge_block(*self, p) == Some(*b),
                None => forge_block(*self, p) is None,
            },
    {
        match p {
            ProviderKind::Github => match &self.github {
                Some(b) => Some(b),
                None => None,
            },
            ProviderKind::Codeberg => match &self.codeberg {
                Some(b) => Some(b),
                None => None,
            },
            ProviderKind::Gitlab => match &self.gitlab {
                Some(b) => Some(b),
                None => None,
            },
        }
    }

    /// How many forges the org is on.
    pub fn len(&self) -> (n: usize)
        ensures
            n == (if self.github is Some {
                1nat
            } else {
                0nat
            }) + (if self.codeberg is Some {
                1nat
            } else {
                0nat
            }) + (if self.gitlab is Some {
                1nat
            } else {
                0nat
            }),
    {
        let mut n: usize = 0;
        if self.github.is_some() {
            n = n + 1;
        }
        if self.codeberg.is_some() {
            n = n + 1;
        }
        if self.gitlab.is_some() {
            n = n + 1;
        }
        n
    }
}

/// Per-org `orgs/<name>.yaml` schema root.
#[derive(Debug, Clone)]
pub struct OrgConfig {
    pub name: OrgName,
    pub forges: OrgForges,
    pub repos: Vec<OrgRepo>,
}

impl OrgConfig {
    /// The credentials for `provider`; none when the org is not on it.
    pub fn credentials_for(&self, provider: ProviderKind) -> (r: &[CredentialEntry])
        ensures
            r@ == match forge_block(self.forges, provider) {
                Some(b) => b.credentials@,
                None => Seq::<CredentialEntry>::empty(),
            },
    {
        match self.forges.get(provider) {
            Some(b) => b.credentials.as_slice(),
            None => &[],
        }
    }

    /// The org's primary provider: the first of its forges in provider
    /// order.
    pub fn primary_provider(&self) -> (r: Option<ProviderKind>)
        ensures
            r == first_provider(self.forges),
    {
        if self.forges.github.is_some() {
            Some(ProviderKind::Github)
        } else if self.forges.codeberg.is_some() {
            Some(ProviderKind::Codeberg)
        } else if self.forges.gitlab.is_some() {
            Some(ProviderKind::Gitlab)
        } else {
            None
        }
    }
}

/// Per-workspace `workspaces/<name>.yaml` schema root.
#[derive(Debug, Clone)]
pub struct WorkspaceConfig {
    pub name: WorkspaceName,
    pub path: FsPath,
    pub repos: Vec<WorkspaceRepo>,
}

/// Everything known about on-disk state: the global config, the orgs
/// and the workspaces.
#[derive(Debug, Clone)]
pub struct LoadedConfig {
    pub global: GlobalConfig,
    pub orgs: Vec<OrgConfig>,
    pub workspaces: Vec<WorkspaceConfig>,
}

} // verus!
