//! Repo-level rules shared by every hub that touches a repo: provider
//! derivation, drift, per-provider credentials, remote scoping,
//! org-diff bucketing and the lifecycle state changes.
//!
//! The forge calls themselves (reading metadata, creating, deleting)
//! are made by the program around this library.

use vstd::prelude::*;

use crate::text::{concat, eq_str};
use crate::v5::adapters::{extract_host, url_host, ForgeMetadata};
use crate::v5::config::{
    first_provider, forge_block, map_lookup, set_has, CredentialEntry, CredentialType, OrgConfig,
    OrgRepo, ProviderKind, ProviderMap, ProviderSet, Remote, RepoLifecycle, RepoMetadataLocal,
    RepoName,
};

verus! {

/// What `derive_provider` yields for a remote: its explicit provider,
/// else the provider its host maps to; else the error message.
pub open spec fn derive_provider_spec(remote: Remote, map: ProviderMap) -> Result<ProviderKind, Seq<char>> {
    match remote.provider {
        Some(p) => Ok(p),
        None => match url_host(remote.url.0@) {
            None => Err("cannot extract host from url '"@ + remote.url.0@ + "'"@),
            Some(host) => match map_lookup(map.entries@, host) {
                Some(p) => Ok(p),
                None => Err(
                    "derivation failed for url '"@ + remote.url.0@ + "': host '"@ + host
                        + "' not in provider_map and no override"@,
                ),
            },
        },
    }
}

/// Map a `Remote` to its provider: its explicit `provider` override, or
/// the global provider map's entry for its host.
pub fn derive_provider(remote: &Remote, provider_map: &ProviderMap) -> (r: Result<ProviderKind, String>)
    ensures
        match r {
            Ok(p) => derive_provider_spec(*remote, *provider_map) == Ok::<ProviderKind, Seq<char>>(p),
            Err(e) => derive_provider_spec(*remote, *provider_map) == Err::<ProviderKind, Seq<char>>(e@),
        },
{
    if let Some(p) = remote.provider {
        return Ok(p);
    }
    let url = remote.url.as_str();
    let host = match extract_host(url) {
        Some(h) => h,
        None => {
            let a = concat("cannot extract host from url '", url);
            return Err(concat(a.as_str(), "'"));
        },
    };
    match provider_map.get(host.as_str()) {
        Some(p) => Ok(p),
        None => {
            let a = concat("derivation failed for url '", url);
            let b = concat(a.as_str(), "': host '");
            let c = concat(b.as_str(), host.as_str());
            Err(concat(c.as_str(), "' not in provider_map and no override"))
        },
    }
}

/// A metadata value on either side of a drift: a string or a flag.
#[derive(Debug, Clone)]
pub enum DriftValue {
    Text(String),
    Flag(bool),
}

/// A drift value as plain values.
pub enum DriftValueView {
    Text(Seq<char>),
    Flag(bool),
}

/// A single metadata field that disagrees between local declared state
/// and the forge's current state.
#[derive(Debug, Clone)]
pub struct DriftField {
    pub field: String,
    pub local: DriftValue,
    pub remote: DriftValue,
}

/// A drift field as plain values.
pub open spec fn drift_view(d: DriftField) -> (Seq<char>, DriftValueView, DriftValueView) {
    (
        d.field@,
        match d.local {
            DriftValue::Text(s) => DriftValueView::Text(s@),
            DriftValue::Flag(b) => DriftValueView::Flag(b),
        },
        match d.remote {
            DriftValue::Text(s) => DriftValueView::Text(s@),
            DriftValue::Flag(b) => DriftValueView::Flag(b),
        },
    )
}

/// The drift of one declared string field against the forge's value.
pub open spec fn text_drift(name: Seq<char>, local: Option<String>, remote: Seq<char>) -> Seq<
    (Seq<char>, DriftValueView, DriftValueView),
> {
    match local {
        Some(l) => if l@ != remote {
            seq![(name, DriftValueView::Text(l@), DriftValueView::Text(remote))]
        } else {
            seq![]
        },
        None => seq![],
    }
}

/// The drift of the declared fields, in the order default branch,
/// description, archived, visibility; nothing when nothing is declared.
pub open spec fn drift_spec(local: Option<RepoMetadataLocal>, remote: ForgeMetadata) -> Seq<
    (Seq<char>, DriftValueView, DriftValueView),
> {
    match local {
        None => seq![],
        Some(m) => text_drift("default_branch"@, m.default_branch, remote.default_branch@)
            + text_drift("description"@, m.description, remote.description@) + match m.archived {
            Some(a) => if a != remote.archived {
                seq![("archived"@, DriftValueView::Flag(a), DriftValueView::Flag(remote.archived))]
            } else {
                seq![]
            },
            None => seq![],
        } + text_drift("visibility"@, m.visibility, remote.visibility@),
    }
}

/// What the drift `d` says of the declared string field `name`: it has
/// an entry for the field exactly when the field is declared with a value
/// other than the forge's, and that entry carries the declared value and
/// the forge's.
pub open spec fn reports_text_field(
    d: Seq<(Seq<char>, DriftValueView, DriftValueView)>,
    name: Seq<char>,
    local: Option<String>,
    remote: Seq<char>,
) -> bool {
    &&& (exists|i: int| 0 <= i < d.len() && #[trigger] d[i].0 == name) <==> (local is Some && local->0@ != remote)
    &&& forall|i: int|
        0 <= i < d.len() && #[trigger] d[i].0 == name ==> d[i] == (
            name,
            DriftValueView::Text(local->0@),
            DriftValueView::Text(remote),
        )
}

/// The same for the declared flag `archived`.
pub open spec fn reports_archived(d: Seq<(Seq<char>, DriftValueView, DriftValueView)>, local: Option<bool>, remote: bool) -> bool {
    &&& (exists|i: int| 0 <= i < d.len() && #[trigger] d[i].0 == "archived"@) <==> (local is Some && local->0
        != remote)
    &&& forall|i: int|
        0 <= i < d.len() && #[trigger] d[i].0 == "archived"@ ==> d[i] == (
            "archived"@,
            DriftValueView::Flag(local->0),
            DriftValueView::Flag(remote),
        )
}

proof fn lemma_text_drift_named(name: Seq<char>, local: Option<String>, remote: Seq<char>)
    ensures
        text_drift(name, local, remote).len() <= 1,
        forall|i: int| 0 <= i < text_drift(name, local, remote).len() ==> #[trigger] text_drift(name, local, remote)[i] == (
            name,
            DriftValueView::Text(local->0@),
            DriftValueView::Text(remote),
        ),
        text_drift(name, local, remote).len() == 1 <==> (local is Some && local->0@ != remote),
{
}

/// Drift reports the declared fields that disagree with the forge and
/// nothing else: with nothing declared it is empty; every entry carries
/// two different values; and each of `default_branch`, `description`,
/// `archived` and `visibility` has an entry exactly when it is declared
/// with a value other than the forge's, carrying both values.
pub proof fn lemma_drift_reports_declared_differences(local: Option<RepoMetadataLocal>, remote: ForgeMetadata)
    ensures
        local is None ==> drift_spec(local, remote).len() == 0,
        forall|i: int|
            0 <= i < drift_spec(local, remote).len() ==> (#[trigger] drift_spec(local, remote)[i]).1
                != drift_spec(local, remote)[i].2,
        local matches Some(m) ==> {
            let d = drift_spec(local, remote);
            &&& reports_text_field(d, "default_branch"@, m.default_branch, remote.default_branch@)
            &&& reports_text_field(d, "description"@, m.description, remote.description@)
            &&& reports_archived(d, m.archived, remote.archived)
            &&& reports_text_field(d, "visibility"@, m.visibility, remote.visibility@)
        },
{
    reveal_strlit("default_branch");
    reveal_strlit("description");
    reveal_strlit("archived");
    reveal_strlit("visibility");
    assert("default_branch"@.len() == 14);
    assert("description"@.len() == 11);
    assert("archived"@.len() == 8);
    assert("visibility"@.len() == 10);
    if let Some(m) = local {
        let a = text_drift("default_branch"@, m.default_branch, remote.default_branch@);
        let b = text_drift("description"@, m.description, remote.description@);
        let c = match m.archived {
            Some(x) => if x != remote.archived {
                seq![("archived"@, DriftValueView::Flag(x), DriftValueView::Flag(remote.archived))]
            } else {
                seq![]
            },
            None => seq![],
        };
        let v = text_drift("visibility"@, m.visibility, remote.visibility@);
        lemma_text_drift_named("default_branch"@, m.default_branch, remote.default_branch@);
        lemma_text_drift_named("description"@, m.description, remote.description@);
        lemma_text_drift_named("visibility"@, m.visibility, remote.visibility@);
        let d = drift_spec(local, remote);
        assert(d =~= a + b + c + v);
        assert forall|i: int| 0 <= i < d.len() implies {
            &&& (#[trigger] d[i]).1 != d[i].2
            &&& (i < a.len() ==> d[i] == a[i])
            &&& (a.len() <= i < a.len() + b.len() ==> d[i] == b[i - a.len()])
            &&& (a.len() + b.len() <= i < a.len() + b.len() + c.len() ==> d[i] == c[i - a.len() - b.len()])
            &&& (a.len() + b.len() + c.len() <= i ==> d[i] == v[i - a.len() - b.len() - c.len()])
        } by {
            if i < a.len() {
                assert(d[i] == a[i]);
            } else if i < a.len() + b.len() {
                assert(d[i] == b[i - a.len()]);
            } else if i < a.len() + b.len() + c.len() {
                assert(d[i] == c[i - a.len() - b.len()]);
            } else {
                assert(d[i] == v[i - a.len() - b.len() - c.len()]);
            }
        }
        if a.len() == 1 {
            assert(d[0].0 == "default_branch"@);
        }
        if b.len() == 1 {
            assert(d[a.len() as int].0 == "description"@);
        }
        if c.len() == 1 {
            assert(d[(a.len() + b.len()) as int].0 == "archived"@);
        }
        if v.len() == 1 {
            assert(d[(a.len() + b.len() + c.len()) as int].0 == "visibility"@);
        }
    }
}

/// The drift of one declared string field, pushed onto `out`.
fn push_text_drift(out: &mut Vec<DriftField>, name: &str, local: &Option<String>, remote: &String)
    ensures
        final(out)@.map_values(|d: DriftField| drift_view(d)) == old(out)@.map_values(
            |d: DriftField| drift_view(d),
        ) + text_drift(name@, *local, remote@),
{
    let ghost before = out@.map_values(|d: DriftField| drift_view(d));
    match local {
        Some(lv) => {
            if !eq_str(lv.as_str(), remote.as_str()) {
                out.push(
                    DriftField {
                        field: name.to_owned(),
                        local: DriftValue::Text(lv.clone()),
                        remote: DriftValue::Text(remote.clone()),
                    },
                );
                assert(out@.map_values(|d: DriftField| drift_view(d)) =~= before + text_drift(
                    name@,
                    *local,
                    remote@,
                ));
            } else {
                assert(out@.map_values(|d: DriftField| drift_view(d)) =~= before + text_drift(
                    name@,
                    *local,
                    remote@,
                ));
            }
        },
        None => {
            assert(out@.map_values(|d: DriftField| drift_view(d)) =~= before + text_drift(
                name@,
                *local,
                remote@,
            ));
        },
    }
}

/// Compute drift from the locally declared metadata against the
/// forge's metadata. Only the fields the local side declares take part.
pub fn compute_drift(local: &Option<RepoMetadataLocal>, remote: &ForgeMetadata) -> (r: Vec<DriftField>)
    ensures
        r@.map_values(|d: DriftField| drift_view(d)) == drift_spec(*local, *remote),
{
    let mut out: Vec<DriftField> = Vec::new();
    let m = match local {
        Some(m) => m,
        None => {
            assert(out@.map_values(|d: DriftField| drift_view(d)) =~= drift_spec(*local, *remote));
            return out;
        },
    };
    assert(out@.map_values(|d: DriftField| drift_view(d)) =~= Seq::empty());
    push_text_drift(&mut out, "default_branch", &m.default_branch, &remote.default_branch);
    push_text_drift(&mut out, "description", &m.description, &remote.description);
    let ghost mid = out@.map_values(|d: DriftField| drift_view(d));
    match m.archived {
        Some(a) => {
            if a != remote.archived {
                out.push(
                    DriftField {
                        field: "archived".to_owned(),
                        local: DriftValue::Flag(a),
                        remote: DriftValue::Flag(remote.archived),
                    },
                );
                assert(out@.map_values(|d: DriftField| drift_view(d)) =~= mid.push(
                    ("archived"@, DriftValueView::Flag(a), DriftValueView::Flag(remote.archived)),
                ));
            }
        },
        None => {},
    }
    push_text_drift(&mut out, "visibility", &m.visibility, &remote.visibility);
    proof {
        reveal_strlit("default_branch");
        reveal_strlit("description");
        reveal_strlit("visibility");
        assert(out@.map_values(|d: DriftField| drift_view(d)) =~= drift_spec(*local, *remote));
    }
    out
}

/// The key of the first credential of kind `t`, if any.
pub open spec fn first_key_of(creds: Seq<CredentialEntry>, t: CredentialType) -> Option<Seq<char>>
    decreases creds.len(),
{
    if creds.len() == 0 {
        None
    } else if creds[0].cred_type == t {
        Some(creds[0].key@)
    } else {
        first_key_of(creds.drop_first(), t)
    }
}

/// The credentials an org holds for a provider.
pub open spec fn org_credentials(org: OrgConfig, p: ProviderKind) -> Seq<CredentialEntry> {
    match forge_block(org.forges, p) {
        Some(b) => b.credentials@,
        None => Seq::empty(),
    }
}

/// The key of the first credential of kind `t`.
fn first_key(creds: &[CredentialEntry], t: CredentialType) -> (r: Option<&str>)
    ensures
        match r {
            Some(k) => first_key_of(creds@, t) == Some(k@),
            None => first_key_of(creds@, t) is None,
        },
{
    let mut i: usize = 0;
    assert(creds@.skip(0) =~= creds@);
    while i < creds.len()
        invariant
            i <= creds@.len(),
            first_key_of(creds@, t) == first_key_of(creds@.skip(i as int), t),
        decreases creds@.len() - i,
    {
        assert(creds@.skip(i as int).drop_first() =~= creds@.skip(i + 1));
        assert(creds@.skip(i as int)[0] == creds@[i as int]);
        if creds[i].cred_type == t {
            return Some(creds[i].key.as_str());
        }
        i = i + 1;
    }
    None
}

/// Token credential-ref for a specific provider within an org: the key
/// of the first token credential in that provider's block.
pub fn token_ref_for_provider(org: &OrgConfig, provider: ProviderKind) -> (r: Option<&str>)
    ensures
        match r {
            Some(k) => first_key_of(org_credentials(*org, provider), CredentialType::Token) == Some(k@),
            None => first_key_of(org_credentials(*org, provider), CredentialType::Token) is None,
        },
{
    first_key(org.credentials_for(provider), CredentialType::Token)
}

/// The label of a provider in secret paths.
pub open spec fn provider_label(p: ProviderKind) -> Seq<char> {
    match p {
        ProviderKind::Github => "github"@,
        ProviderKind::Codeberg => "codeberg"@,
        ProviderKind::Gitlab => "gitlab"@,
    }
}

/// Provider-default secret path: `secrets://<provider>/_default/token`.
pub fn default_token_ref_for_provider(provider: ProviderKind) -> (s: String)
    ensures
        s@ == "secrets://"@ + provider_label(provider) + "/_default/token"@,
{
    let label = match provider {
        ProviderKind::Github => "github",
        ProviderKind::Codeberg => "codeberg",
        ProviderKind::Gitlab => "gitlab",
    };
    let a = concat("secrets://", label);
    concat(a.as_str(), "/_default/token")
}

/// SSH-key credential-ref for a specific provider within an org.
pub fn ssh_key_for_provider(org: &OrgConfig, provider: ProviderKind) -> (r: Option<&str>)
    ensures
        match r {
            Some(k) => first_key_of(org_credentials(*org, provider), CredentialType::SshKey) == Some(k@),
            None => first_key_of(org_credentials(*org, provider), CredentialType::SshKey) is None,
        },
{
    first_key(org.credentials_for(provider), CredentialType::SshKey)
}

/// Token credential-ref for the org's primary provider.
pub fn token_ref_for(org: &OrgConfig) -> (r: Option<&str>)
    ensures
        match first_provider(org.forges) {
            None => r is None,
            Some(p) => match r {
                Some(k) => first_key_of(org_credentials(*org, p), CredentialType::Token) == Some(k@),
                None => first_key_of(org_credentials(*org, p), CredentialType::Token) is None,
            },
        },
{
    let pk = match org.primary_provider() {
        Some(p) => p,
        None => return None,
    };
    token_ref_for_provider(org, pk)
}

/// Provider-default secret path for the org's primary provider (GitHub
/// when the org is on no forge).
pub fn default_token_ref_for(org: &OrgConfig) -> (s: String)
    ensures
        s@ == "secrets://"@ + provider_label(
            match first_provider(org.forges) {
                Some(p) => p,
                None => ProviderKind::Github,
            },
        ) + "/_default/token"@,
{
    let pk = match org.primary_provider() {
        Some(p) => p,
        None => ProviderKind::Github,
    };
    default_token_ref_for_provider(pk)
}

/// Whether a remote takes part under the repo's forge scope: no scope
/// means every remote; else its derived provider must be in scope (a
/// remote whose provider cannot be derived is out).
pub open spec fn in_scope(scope: Option<Vec<ProviderKind>>, r: Remote, map: ProviderMap) -> bool {
    match scope {
        None => true,
        Some(list) => match derive_provider_spec(r, map) {
            Ok(p) => list@.contains(p),
            Err(_) => false,
        },
    }
}

/// Whether `list` holds `p`.
fn scope_contains(list: &Vec<ProviderKind>, p: ProviderKind) -> (b: bool)
    ensures
        b == list@.contains(p),
{
    let mut i: usize = 0;
    while i < list.len()
        invariant
            i <= list@.len(),
            forall|j: int| 0 <= j < i ==> list@[j] != p,
        decreases list@.len() - i,
    {
        if list[i] == p {
            assert(list@[i as int] == p);
            return true;
        }
        i = i + 1;
    }
    false
}

/// The remotes of a repo under its per-repo forge scope, in order.
pub fn filter_remotes_by_forges<'a>(repo: &'a OrgRepo, provider_map: &ProviderMap) -> (r: Vec<&'a Remote>)
    ensures
        r@.map_values(|x: &Remote| *x) == repo.remotes@.filter(
            |x: Remote| in_scope(repo.forges, x, *provider_map),
        ),
{
    let ghost pred = |x: Remote| in_scope(repo.forges, x, *provider_map);
    let mut out: Vec<&'a Remote> = Vec::new();
    let mut i: usize = 0;
    while i < repo.remotes.len()
        invariant
            i <= repo.remotes@.len(),
            pred == (|x: Remote| in_scope(repo.forges, x, *provider_map)),
            out@.map_values(|x: &Remote| *x) == repo.remotes@.take(i as int).filter(pred),
        decreases repo.remotes@.len() - i,
    {
        proof {
            reveal(Seq::filter);
            assert(repo.remotes@.take(i + 1).drop_last() =~= repo.remotes@.take(i as int));
        }
        let r = &repo.remotes[i];
        let keep = match &repo.forges {
            None => true,
            Some(list) => match derive_provider(r, provider_map) {
                Ok(p) => scope_contains(list, p),
                Err(_) => false,
            },
        };
        if keep {
            out.push(r);
        }
        assert(out@.map_values(|x: &Remote| *x) =~= repo.remotes@.take(i + 1).filter(pred));
        i = i + 1;
    }
    assert(repo.remotes@.take(repo.remotes@.len() as int) =~= repo.remotes@);
    out
}

/// The canonical remote that is in scope: the first in-scope remote.
pub fn canonical_remote_in_scope<'a>(repo: &'a OrgRepo, provider_map: &ProviderMap) -> (r: Option<&'a Remote>)
    ensures
        ({
            let f = repo.remotes@.filter(|x: Remote| in_scope(repo.forges, x, *provider_map));
            match r {
                Some(x) => f.len() > 0 && *x == f[0],
                None => f.len() == 0,
            }
        }),
{
    let v = filter_remotes_by_forges(repo, provider_map);
    if v.len() > 0 {
        assert(v@.map_values(|x: &Remote| *x)[0] == *v@[0]);
        Some(v[0])
    } else {
        None
    }
}

/// Did the per-repo forge scope exclude every remote of a repo that
/// has some?
pub fn all_remotes_excluded(repo: &OrgRepo, provider_map: &ProviderMap) -> (b: bool)
    ensures
        b == (repo.remotes@.len() > 0 && repo.remotes@.filter(
            |x: Remote| in_scope(repo.forges, x, *provider_map),
        ).len() == 0),
{
    repo.remotes.len() > 0 && filter_remotes_by_forges(repo, provider_map).len() == 0
}

/// Bucket a repo lands in after resolving its canonical owner against
/// the forge, relative to a `(from_org, to_org)` pair.
#[derive(Debug, Clone, Copy, PartialEq, Eq, Structural)]
pub enum OrgDiffVerdict {
    /// Canonical owner is `to_org`: the repo moved as intended.
    Moved,
    /// Canonical owner is `from_org`: the repo did not move.
    Stayed,
    /// Canonical owner is some third org or user.
    Elsewhere,
    /// Repo not found on the forge at all.
    Missing,
}

impl OrgDiffVerdict {
    pub fn as_str(self) -> (s: &'static str)
        ensures
            s@ == match self {
                OrgDiffVerdict::Moved => "moved"@,
                OrgDiffVerdict::Stayed => "stayed"@,
                OrgDiffVerdict::Elsewhere => "elsewhere"@,
                OrgDiffVerdict::Missing => "missing"@,
            },
    {
        match self {
            OrgDiffVerdict::Moved => "moved",
            OrgDiffVerdict::Stayed => "stayed",
            OrgDiffVerdict::Elsewhere => "elsewhere",
            OrgDiffVerdict::Missing => "missing",
        }
    }

    /// Bucket a repo by the forge's canonical owner.
    pub fn classify(canonical_owner: &str, from_org: &str, to_org: &str) -> (v: OrgDiffVerdict)
        ensures
            v == if canonical_owner@ == to_org@ {
                OrgDiffVerdict::Moved
            } else if canonical_owner@ == from_org@ {
                OrgDiffVerdict::Stayed
            } else {
                OrgDiffVerdict::Elsewhere
            },
    {
        if eq_str(canonical_owner, to_org) {
            OrgDiffVerdict::Moved
        } else if eq_str(canonical_owner, from_org) {
            OrgDiffVerdict::Stayed
        } else {
            OrgDiffVerdict::Elsewhere
        }
    }

    /// Bucket a repo not found at `from_org` by the probe at `to_org`:
    /// there, it moved; absent at both ends, it is missing.
    pub fn classify_not_found_at_source(exists_at_to_org: bool) -> (v: OrgDiffVerdict)
        ensures
            v == if exists_at_to_org {
                OrgDiffVerdict::Moved
            } else {
                OrgDiffVerdict::Missing
            },
    {
        if exists_at_to_org {
            OrgDiffVerdict::Moved
        } else {
            OrgDiffVerdict::Missing
        }
    }
}

/// The sync state of one remote.
#[derive(Debug, Clone, Copy, PartialEq, Eq, Structural)]
pub enum SyncStatus {
    InSync,
    Drifted,
    Errored,
}

impl SyncStatus {
    pub fn as_str(self) -> (s: &'static str)
        ensures
            s@ == match self {
                SyncStatus::InSync => "in_sync"@,
                SyncStatus::Drifted => "drifted"@,
                SyncStatus::Errored => "errored"@,
            },
    {
        match self {
            SyncStatus::InSync => "in_sync",
            SyncStatus::Drifted => "drifted",
            SyncStatus::Errored => "errored",
        }
    }
}

/// The lifecycle a repo's metadata gives it (`Active` when absent).
pub open spec fn lifecycle_of(m: Option<RepoMetadataLocal>) -> RepoLifecycle {
    match m {
        Some(md) => md.lifecycle,
        None => RepoLifecycle::Active,
    }
}

/// Whether a repo's metadata marks it protected.
pub open spec fn protected_of(m: Option<RepoMetadataLocal>) -> bool {
    match m {
        Some(md) => md.protected,
        None => false,
    }
}

/// Set the repo's lifecycle to dismissed and add `privatized` to its
/// privatized providers. Nothing else of the repo changes.
pub fn dismiss(repo: &mut OrgRepo, privatized: ProviderSet)
    ensures
        final(repo).name == old(repo).name,
        final(repo).remotes == old(repo).remotes,
        final(repo).forges == old(repo).forges,
        final(repo).metadata is Some,
        ({
            let m = final(repo).metadata->0;
            &&& m.lifecycle == RepoLifecycle::Dismissed
            &&& m.protected == protected_of(old(repo).metadata)
            &&& forall|p: ProviderKind|
                set_has(m.privatized_on, p) == (set_has(privatized, p) || match old(repo).metadata {
                    Some(om) => set_has(om.privatized_on, p),
                    None => false,
                })
            &&& match old(repo).metadata {
                Some(om) => m.default_branch == om.default_branch && m.description == om.description
                    && m.archived == om.archived && m.visibility == om.visibility,
                None => m.default_branch is None && m.description is None && m.archived is None
                    && m.visibility is None,
            }
        }),
{
    let mut md = match repo.metadata.take() {
        Some(m) => m,
        None => RepoMetadataLocal::default(),
    };
    md.lifecycle = RepoLifecycle::Dismissed;
    md.privatized_on.extend(privatized);
    repo.metadata = Some(md);
}

/// Why a purge is refused.
#[derive(Debug, Clone, Copy, PartialEq, Eq, Structural)]
pub enum PurgeError {
    NotFound,
    Protected,
    NotDismissed,
}

impl PurgeError {
    /// The human-readable description of the error.
    pub fn message(&self) -> (s: &'static str)
        ensures
            s@ == match *self {
                PurgeError::NotFound => "repo not found in org"@,
                PurgeError::Protected => "repo is protected"@,
                PurgeError::NotDismissed => "repo lifecycle is not dismissed (run repos.delete first)"@,
            },
    {
        match self {
            PurgeError::NotFound => "repo not found in org",
            PurgeError::Protected => "repo is protected",
            PurgeError::NotDismissed => "repo lifecycle is not dismissed (run repos.delete first)",
        }
    }
}

/// The index of the first repo named `name`.
pub open spec fn repo_index(repos: Seq<OrgRepo>, name: Seq<char>) -> Option<int>
    decreases repos.len(),
{
    if repos.len() == 0 {
        None
    } else if repos[0].name.0@ == name {
        Some(0)
    } else {
        match repo_index(repos.drop_first(), name) {
            Some(i) => Some(i + 1),
            None => None,
        }
    }
}

/// What purging `name` from `repos` does: the index removed, or why
/// it is refused (not there; protected; not dismissed).
pub open spec fn purge_spec(repos: Seq<OrgRepo>, name: Seq<char>) -> Result<int, PurgeError> {
    match repo_index(repos, name) {
        None => Err(PurgeError::NotFound),
        Some(i) => if protected_of(repos[i].metadata) {
            Err(PurgeError::Protected)
        } else if lifecycle_of(repos[i].metadata) != RepoLifecycle::Dismissed {
            Err(PurgeError::NotDismissed)
        } else {
            Ok(i)
        },
    }
}

proof fn lemma_repo_index(repos: Seq<OrgRepo>, name: Seq<char>)
    ensures
        match repo_index(repos, name) {
            Some(i) => 0 <= i < repos.len() && repos[i].name.0@ == name,
            None => true,
        },
    decreases repos.len(),
{
    if repos.len() > 0 && repos[0].name.0@ != name {
        lemma_repo_index(repos.drop_first(), name);
    }
}

/// Remove the repo entry from the org, after the purge guards: the
/// repo must be there, unprotected and dismissed. A refused purge
/// leaves the org unchanged.
pub fn purge(org: &mut OrgConfig, name: &RepoName) -> (r: Result<(), PurgeError>)
    ensures
        final(org).name == old(org).name,
        final(org).forges == old(org).forges,
        match purge_spec(old(org).repos@, name.0@) {
            Ok(i) => r is Ok && final(org).repos@ == old(org).repos@.remove(i),
            Err(e) => r == Err::<(), PurgeError>(e) && final(org).repos@ == old(org).repos@,
        },
{
    proof {
        lemma_repo_index(org.repos@, name.0@);
    }
    let mut idx: usize = 0;
    let mut found = false;
    assert(org.repos@.skip(0) =~= org.repos@);
    while idx < org.repos.len() && !found
        invariant
            idx <= org.repos@.len(),
            found ==> idx < org.repos@.len() && org.repos@[idx as int].name.0@ == name.0@,
            repo_index(org.repos@, name.0@) == match repo_index(org.repos@.skip(idx as int), name.0@) {
                Some(j) => Some(j + idx),
                None => None::<int>,
            },
        decreases org.repos@.len() - idx, if found { 0int } else { 1int },
    {
        assert(org.repos@.skip(idx as int).drop_first() =~= org.repos@.skip(idx + 1));
        assert(org.repos@.skip(idx as int)[0] == org.repos@[idx as int]);
        if eq_str(org.repos[idx].name.as_str(), name.as_str()) {
            found = true;
        } else {
            idx = idx + 1;
        }
    }
    if !found {
        assert(org.repos@.skip(idx as int).len() == 0);
        return Err(PurgeError::NotFound);
    }
    assert(org.repos@.skip(idx as int)[0] == org.repos@[idx as int]);
    assert(repo_index(org.repos@, name.0@) == Some(idx as int));
    let repo = &org.repos[idx];
    let protected = match &repo.metadata {
        Some(m) => m.protected,
        None => false,
    };
    if protected {
        return Err(PurgeError::Protected);
    }
    let lifecycle = match &repo.metadata {
        Some(m) => m.lifecycle,
        None => RepoLifecycle::Active,
    };
    if lifecycle != RepoLifecycle::Dismissed {
        return Err(PurgeError::NotDismissed);
    }
    org.repos.remove(idx);
    Ok(())
}

/// A protected repo is never purged, and an unprotected one is purged
/// exactly when it has been dismissed.
pub proof fn lemma_purge_guards(repos: Seq<OrgRepo>, name: Seq<char>, i: int)
    requires
        repo_index(repos, name) == Some(i),
    ensures
        protected_of(repos[i].metadata) ==> purge_spec(repos, name) == Err::<int, PurgeError>(
            PurgeError::Protected,
        ),
        !protected_of(repos[i].metadata) ==> (purge_spec(repos, name) is Ok <==> lifecycle_of(
            repos[i].metadata,
        ) == RepoLifecycle::Dismissed),
{
}

} // verus!
