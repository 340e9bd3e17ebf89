//! Package manifests of a workspace: what they declare, the anomalies
//! across them, and the order in which they publish.
//!
//! Reading and parsing the manifest files (TOML, JSON) is done by the
//! program around this library, which hands the parsed manifests in.

use vstd::prelude::*;

use crate::order::{lemma_lex_trans, sorted_distinct, strictly_sorted};
use crate::doc::{get_spec, json_doc, parse_json, parse_toml, toml_doc, DocValue};
use crate::text::{
    ascii_lower, byte_len, char_bytes, char_index_at_byte, concat, eq_str, find_str, join, join_strings, lines,
    lines_of, string_of_range, to_chars, trim, trim_str, views,
};

verus! {

/// Errors of detecting and parsing a manifest.
#[derive(Debug, Clone)]
pub enum ManifestError {
    NotFound(String),
    ParseError { file: String, message: String },
    Io(String),
}

impl ManifestError {
    /// The stable machine-readable code of the error.
    pub fn code(&self) -> (s: &'static str)
        ensures
            s@ == (match self {
                ManifestError::NotFound(_) => "manifest_not_found"@,
                ManifestError::ParseError { .. } => "manifest_parse_error"@,
                ManifestError::Io(_) => "io"@,
            }),
    {
        match self {
            ManifestError::NotFound(_) => "manifest_not_found",
            ManifestError::ParseError { .. } => "manifest_parse_error",
            ManifestError::Io(_) => "io",
        }
    }
}

/// A dependency declared by a manifest.
#[derive(Debug, Clone)]
pub struct Dep {
    pub name: String,
    pub version: String,
    /// `cargo` | `npm` | `pypi`: which manifest kind this came from.
    pub source: String,
}

/// A parsed package manifest.
#[derive(Debug, Clone)]
pub struct PackageManifest {
    /// `cargo` | `npm` | `pypi` | `cabal`.
    pub kind: String,
    pub name: String,
    pub version: String,
    pub deps: Vec<Dep>,
}

impl Dep {
    /// A copy of this dependency.
    pub fn duplicate(&self) -> (r: Dep)
        ensures
            r == *self,
    {
        Dep { name: self.name.clone(), version: self.version.clone(), source: self.source.clone() }
    }
}

impl PackageManifest {
    /// A copy of this manifest.
    pub fn duplicate(&self) -> (r: PackageManifest)
        ensures
            r.kind == self.kind,
            r.name == self.name,
            r.version == self.version,
            r.deps@ == self.deps@,
    {
        let mut deps: Vec<Dep> = Vec::new();
        let mut i: usize = 0;
        while i < self.deps.len()
            invariant
                i <= self.deps@.len(),
                deps@ == self.deps@.take(i as int),
            decreases self.deps@.len() - i,
        {
            deps.push(self.deps[i].duplicate());
            i = i + 1;
            assert(deps@ =~= self.deps@.take(i as int));
        }
        assert(self.deps@.take(i as int) =~= self.deps@);
        PackageManifest {
            kind: self.kind.clone(),
            name: self.name.clone(),
            version: self.version.clone(),
            deps,
        }
    }
}

/// A cross-manifest anomaly.
#[derive(Debug, Clone)]
pub enum Finding {
    /// Two manifests declare the same package name with different versions.
    DuplicateName { name: String, versions: Vec<String> },
    /// Two manifests declare a shared dependency at different versions.
    VersionMismatch { dep: String, versions: Vec<String> },
}

/// A finding as plain values.
pub enum FindingView {
    DuplicateName { name: Seq<char>, versions: Seq<Seq<char>> },
    VersionMismatch { dep: Seq<char>, versions: Seq<Seq<char>> },
}

impl View for Finding {
    type V = FindingView;

    open spec fn view(&self) -> FindingView {
        match self {
            Finding::DuplicateName { name, versions } => FindingView::DuplicateName {
                name: name@,
                versions: views(versions@),
            },
            Finding::VersionMismatch { dep, versions } => FindingView::VersionMismatch {
                dep: dep@,
                versions: views(versions@),
            },
        }
    }
}

/// The findings as plain values.
pub open spec fn finding_views(s: Seq<Finding>) -> Seq<FindingView> {
    s.map_values(|f: Finding| f@)
}

/// The package names of the manifests, in order.
pub open spec fn names_of(ms: Seq<PackageManifest>) -> Seq<Seq<char>> {
    ms.map_values(|m: PackageManifest| m.name@)
}

/// The versions declared under the name `n`, in manifest order.
pub open spec fn name_versions(ms: Seq<PackageManifest>, n: Seq<char>) -> Seq<Seq<char>>
    decreases ms.len(),
{
    if ms.len() == 0 {
        seq![]
    } else {
        let r = name_versions(ms.drop_last(), n);
        if ms.last().name@ == n {
            r.push(ms.last().version@)
        } else {
            r
        }
    }
}

/// The versions at which `deps` declare the dependency `d`, in order.
pub open spec fn versions_in(deps: Seq<Dep>, d: Seq<char>) -> Seq<Seq<char>>
    decreases deps.len(),
{
    if deps.len() == 0 {
        seq![]
    } else {
        let r = versions_in(deps.drop_last(), d);
        if deps.last().name@ == d {
            r.push(deps.last().version@)
        } else {
            r
        }
    }
}

/// The versions at which the manifests declare the dependency `d`.
pub open spec fn dep_versions(ms: Seq<PackageManifest>, d: Seq<char>) -> Seq<Seq<char>>
    decreases ms.len(),
{
    if ms.len() == 0 {
        seq![]
    } else {
        dep_versions(ms.drop_last(), d) + versions_in(ms.last().deps@, d)
    }
}

/// Some two entries differ.
pub open spec fn has_two_distinct(s: Seq<Seq<char>>) -> bool {
    exists|i: int, j: int| 0 <= i < s.len() && 0 <= j < s.len() && s[i] != s[j]
}

/// The non-empty package names.
pub open spec fn declared_names(ms: Seq<PackageManifest>) -> Set<Seq<char>> {
    names_of(ms).to_set().filter(|n: Seq<char>| n.len() > 0)
}

/// The names of the dependencies of each manifest, in order.
pub open spec fn dep_name_seq(ms: Seq<PackageManifest>) -> Seq<Seq<char>>
    decreases ms.len(),
{
    if ms.len() == 0 {
        seq![]
    } else {
        dep_name_seq(ms.drop_last()) + ms.last().deps@.map_values(|d: Dep| d.name@)
    }
}

/// The names of all declared dependencies.
pub open spec fn dep_names(ms: Seq<PackageManifest>) -> Set<Seq<char>> {
    dep_name_seq(ms).to_set()
}

/// `r` is the duplicate-name findings: one per name declared at two
/// different versions, by name in order, with every version declared
/// under it.
pub open spec fn duplicate_findings(ms: Seq<PackageManifest>, r: Seq<FindingView>) -> bool {
    let keys = r.map_values(|f: FindingView| f->DuplicateName_name);
    &&& strictly_sorted(keys)
    &&& keys.to_set() == declared_names(ms).filter(
        |n: Seq<char>| has_two_distinct(name_versions(ms, n)),
    )
    &&& forall|i: int|
        0 <= i < r.len() ==> #[trigger] r[i] == (FindingView::DuplicateName {
            name: keys[i],
            versions: name_versions(ms, keys[i]),
        })
}

/// `r` is the version-mismatch findings: one per dependency declared
/// at two different versions, by name in order, with its distinct
/// versions in order.
pub open spec fn mismatch_findings(ms: Seq<PackageManifest>, r: Seq<FindingView>) -> bool {
    let keys = r.map_values(|f: FindingView| f->VersionMismatch_dep);
    &&& strictly_sorted(keys)
    &&& keys.to_set() == dep_names(ms).filter(|d: Seq<char>| has_two_distinct(dep_versions(ms, d)))
    &&& forall|i: int|
        0 <= i < r.len() ==> (#[trigger] r[i] is VersionMismatch && r[i]->VersionMismatch_dep
            == keys[i] && strictly_sorted(r[i]->VersionMismatch_versions)
            && r[i]->VersionMismatch_versions.to_set() == dep_versions(ms, keys[i]).to_set())
}

/// The versions declared under `n`.
fn versions_named(ms: &[PackageManifest], n: &str) -> (r: Vec<String>)
    ensures
        views(r@) == name_versions(ms@, n@),
{
    let mut out: Vec<String> = Vec::new();
    let mut i: usize = 0;
    while i < ms.len()
        invariant
            i <= ms@.len(),
            views(out@) == name_versions(ms@.take(i as int), n@),
        decreases ms@.len() - i,
    {
        assert(ms@.take(i + 1).drop_last() =~= ms@.take(i as int));
        if eq_str(ms[i].name.as_str(), n) {
            out.push(ms[i].version.clone());
            assert(views(out@) =~= views(out@).drop_last().push(out@.last()@));
        }
        i = i + 1;
    }
    assert(ms@.take(ms@.len() as int) =~= ms@);
    out
}

/// The versions at which `deps` declare `d`.
fn versions_in_of(deps: &Vec<Dep>, d: &str) -> (r: Vec<String>)
    ensures
        views(r@) == versions_in(deps@, d@),
{
    let mut out: Vec<String> = Vec::new();
    let mut k: usize = 0;
    while k < deps.len()
        invariant
            k <= deps@.len(),
            views(out@) == versions_in(deps@.take(k as int), d@),
        decreases deps@.len() - k,
    {
        assert(deps@.take(k + 1).drop_last() =~= deps@.take(k as int));
        if eq_str(deps[k].name.as_str(), d) {
            out.push(deps[k].version.clone());
            assert(views(out@) =~= views(out@).drop_last().push(out@.last()@));
        }
        k = k + 1;
    }
    assert(deps@.take(deps@.len() as int) =~= deps@);
    out
}

/// The versions at which the manifests declare `d`.
fn dep_versions_of(ms: &[PackageManifest], d: &str) -> (r: Vec<String>)
    ensures
        views(r@) == dep_versions(ms@, d@),
{
    let mut out: Vec<String> = Vec::new();
    let mut i: usize = 0;
    while i < ms.len()
        invariant
            i <= ms@.len(),
            views(out@) == dep_versions(ms@.take(i as int), d@),
        decreases ms@.len() - i,
    {
        assert(ms@.take(i + 1).drop_last() =~= ms@.take(i as int));
        let vs = versions_in_of(&ms[i].deps, d);
        let ghost before = views(out@);
        let mut k: usize = 0;
        while k < vs.len()
            invariant
                k <= vs@.len(),
                views(out@) == before + views(vs@).take(k as int),
            decreases vs@.len() - k,
        {
            let ghost prev = out@;
            out.push(vs[k].clone());
            assert(views(out@) =~= views(prev).push(vs@[k as int]@));
            assert(views(vs@).take(k + 1) =~= views(vs@).take(k as int).push(vs@[k as int]@));
            assert(views(out@) =~= before + views(vs@).take(k + 1));
            k = k + 1;
        }
        assert(views(vs@).take(vs@.len() as int) =~= views(vs@));
        i = i + 1;
    }
    assert(ms@.take(ms@.len() as int) =~= ms@);
    out
}

/// Whether some two entries differ.
fn has_two_distinct_of(v: &Vec<String>) -> (r: bool)
    ensures
        r == has_two_distinct(views(v@)),
{
    let ghost s = views(v@);
    if v.len() == 0 {
        return false;
    }
    let mut j: usize = 1;
    while j < v.len()
        invariant
            1 <= j <= v@.len(),
            s == views(v@),
            forall|k: int| 0 <= k < j ==> #[trigger] s[k] == s[0],
        decreases v@.len() - j,
    {
        if !eq_str(v[j].as_str(), v[0].as_str()) {
            assert(s[0] != s[j as int]);
            return true;
        }
        j = j + 1;
    }
    assert forall|a: int, b: int| 0 <= a < s.len() && 0 <= b < s.len() implies s[a] == s[b] by {
        assert(s[a] == s[0]);
        assert(s[b] == s[0]);
    }
    false
}

/// The names declared at two different versions, as findings in name
/// order.
fn duplicate_name_findings(ms: &[PackageManifest]) -> (r: Vec<Finding>)
    ensures
        duplicate_findings(ms@, finding_views(r@)),
{
    let mut names: Vec<String> = Vec::new();
    let mut i: usize = 0;
    while i < ms.len()
        invariant
            i <= ms@.len(),
            views(names@).to_set() == names_of(ms@).take(i as int).to_set().filter(
                |n: Seq<char>| n.len() > 0,
            ),
        decreases ms@.len() - i,
    {
        let ghost before = views(names@);
        assert(names_of(ms@).take(i + 1) =~= names_of(ms@).take(i as int).push(ms@[i as int].name@));
        proof {
            names_of(ms@).take(i as int).lemma_push_to_set_commute(ms@[i as int].name@);
        }
        if !ms[i].name.as_str().is_empty() {
            names.push(ms[i].name.clone());
            proof {
                before.lemma_push_to_set_commute(ms@[i as int].name@);
                assert(views(names@) =~= before.push(ms@[i as int].name@));
            }
        }
        assert(views(names@).to_set() =~= names_of(ms@).take(i + 1).to_set().filter(
            |n: Seq<char>| n.len() > 0,
        ));
        i = i + 1;
    }
    assert(names_of(ms@).take(ms@.len() as int) =~= names_of(ms@));
    let keys = sorted_distinct(&names);
    let ghost ks = views(keys@);
    let ghost pred = |n: Seq<char>| has_two_distinct(name_versions(ms@, n));
    let mut out: Vec<Finding> = Vec::new();
    let mut t: usize = 0;
    while t < keys.len()
        invariant
            t <= keys@.len(),
            ks == views(keys@),
            strictly_sorted(ks),
            ks.to_set() == declared_names(ms@),
            pred == (|n: Seq<char>| has_two_distinct(name_versions(ms@, n))),
            strictly_sorted(finding_views(out@).map_values(|f: FindingView| f->DuplicateName_name)),
            finding_views(out@).map_values(|f: FindingView| f->DuplicateName_name).to_set()
                == ks.take(t as int).to_set().filter(pred),
            forall|a: int, b: int|
                #![trigger finding_views(out@)[a], ks[b]]
                0 <= a < out@.len() && t <= b < ks.len() ==> crate::order::lex_lt(
                    finding_views(out@)[a]->DuplicateName_name,
                    ks[b],
                ),
            forall|a: int|
                0 <= a < out@.len() ==> #[trigger] finding_views(out@)[a]
                    == (FindingView::DuplicateName {
                    name: finding_views(out@)[a]->DuplicateName_name,
                    versions: name_versions(ms@, finding_views(out@)[a]->DuplicateName_name),
                }),
        decreases keys@.len() - t,
    {
        let ghost fv = finding_views(out@);
        let ghost fk = fv.map_values(|f: FindingView| f->DuplicateName_name);
        let ghost k = ks[t as int];
        assert(ks.take(t + 1) =~= ks.take(t as int).push(k));
        proof {
            ks.take(t as int).lemma_push_to_set_commute(k);
        }
        let versions = versions_named(ms, keys[t].as_str());
        if has_two_distinct_of(&versions) {
            out.push(Finding::DuplicateName { name: keys[t].clone(), versions });
            let ghost nfv = finding_views(out@);
            let ghost nfk = nfv.map_values(|f: FindingView| f->DuplicateName_name);
            assert(nfv =~= fv.push((FindingView::DuplicateName { name: k, versions: name_versions(ms@, k) })));
            assert(nfk =~= fk.push(k));
            proof {
                fk.lemma_push_to_set_commute(k);
                assert forall|a: int, b: int| 0 <= a < b < nfk.len() implies crate::order::lex_lt(
                    #[trigger] nfk[a],
                    #[trigger] nfk[b],
                ) by {
                    if b < fk.len() {
                        assert(nfk[a] == fk[a] && nfk[b] == fk[b]);
                    } else {
                        assert(nfk[a] == fv[a]->DuplicateName_name);
                        assert(nfk[b] == k);
                    }
                }
                assert forall|a: int, b: int|
                    #![trigger finding_views(out@)[a], ks[b]]
                    0 <= a < out@.len() && t + 1 <= b < ks.len() implies crate::order::lex_lt(
                    finding_views(out@)[a]->DuplicateName_name,
                    ks[b],
                ) by {
                    if a < fv.len() {
                        assert(finding_views(out@)[a] == fv[a]);
                    } else {
                        assert(crate::order::lex_lt(ks[t as int], ks[b]));
                    }
                }
            }
            assert(nfk.to_set() =~= ks.take(t + 1).to_set().filter(pred));
        } else {
            assert(ks.take(t as int).to_set().filter(pred) =~= ks.take(t + 1).to_set().filter(
                pred,
            ));
        }
        t = t + 1;
    }
    assert(ks.take(ks.len() as int) =~= ks);
    assert(declared_names(ms@).filter(pred) =~= declared_names(ms@).filter(
        |n: Seq<char>| has_two_distinct(name_versions(ms@, n)),
    ));
    out
}

/// A strictly sorted list of the distinct entries of `s` has more than
/// one entry exactly when two entries of `s` differ.
proof fn lemma_distinct_count(u: Seq<Seq<char>>, s: Seq<Seq<char>>)
    requires
        strictly_sorted(u),
        u.to_set() == s.to_set(),
    ensures
        u.len() > 1 <==> has_two_distinct(s),
{
    if u.len() > 1 {
        assert(crate::order::lex_lt(u[0], u[1]));
        crate::order::lemma_lex_antisym(u[0], u[0]);
        assert(u.to_set().contains(u[0]));
        assert(u.to_set().contains(u[1]));
        let i = choose|i: int| 0 <= i < s.len() && s[i] == u[0];
        let j = choose|j: int| 0 <= j < s.len() && s[j] == u[1];
        assert(s[i] != s[j]);
    }
    if has_two_distinct(s) {
        let (i, j) = choose|i: int, j: int| 0 <= i < s.len() && 0 <= j < s.len() && s[i] != s[j];
        assert(s.to_set().contains(s[i]));
        assert(s.to_set().contains(s[j]));
        let a = choose|a: int| 0 <= a < u.len() && u[a] == s[i];
        let b = choose|b: int| 0 <= b < u.len() && u[b] == s[j];
        assert(a != b);
    }
}

/// The names of all declared dependencies, manifest by manifest.
fn dep_name_list(ms: &[PackageManifest]) -> (r: Vec<String>)
    ensures
        views(r@) == dep_name_seq(ms@),
{
    let mut out: Vec<String> = Vec::new();
    let mut i: usize = 0;
    while i < ms.len()
        invariant
            i <= ms@.len(),
            views(out@) == dep_name_seq(ms@.take(i as int)),
        decreases ms@.len() - i,
    {
        assert(ms@.take(i + 1).drop_last() =~= ms@.take(i as int));
        let ghost before = views(out@);
        let ghost dn = ms@[i as int].deps@.map_values(|d: Dep| d.name@);
        let mut k: usize = 0;
        while k < ms[i].deps.len()
            invariant
                i < ms@.len(),
                k <= ms@[i as int].deps@.len(),
                dn == ms@[i as int].deps@.map_values(|d: Dep| d.name@),
                views(out@) == before + dn.take(k as int),
            decreases ms@[i as int].deps@.len() - k,
        {
            let ghost prev = out@;
            out.push(ms[i].deps[k].name.clone());
            assert(views(out@) =~= views(prev).push(dn[k as int]));
            assert(dn.take(k + 1) =~= dn.take(k as int).push(dn[k as int]));
            k = k + 1;
        }
        assert(dn.take(dn.len() as int) =~= dn);
        i = i + 1;
    }
    assert(ms@.take(ms@.len() as int) =~= ms@);
    out
}

/// The dependencies declared at two different versions, as findings in
/// name order.
fn version_mismatch_findings(ms: &[PackageManifest]) -> (r: Vec<Finding>)
    ensures
        mismatch_findings(ms@, finding_views(r@)),
{
    let names = dep_name_list(ms);
    let keys = sorted_distinct(&names);
    let ghost ks = views(keys@);
    let ghost pred = |d: Seq<char>| has_two_distinct(dep_versions(ms@, d));
    let mut out: Vec<Finding> = Vec::new();
    let mut t: usize = 0;
    while t < keys.len()
        invariant
            t <= keys@.len(),
            ks == views(keys@),
            strictly_sorted(ks),
            ks.to_set() == dep_names(ms@),
            pred == (|d: Seq<char>| has_two_distinct(dep_versions(ms@, d))),
            strictly_sorted(finding_views(out@).map_values(|f: FindingView| f->VersionMismatch_dep)),
            finding_views(out@).map_values(|f: FindingView| f->VersionMismatch_dep).to_set()
                == ks.take(t as int).to_set().filter(pred),
            forall|a: int, b: int|
                #![trigger finding_views(out@)[a], ks[b]]
                0 <= a < out@.len() && t <= b < ks.len() ==> crate::order::lex_lt(
                    finding_views(out@)[a]->VersionMismatch_dep,
                    ks[b],
                ),
            forall|a: int|
                0 <= a < out@.len() ==> (#[trigger] finding_views(out@)[a] is VersionMismatch
                    && strictly_sorted(finding_views(out@)[a]->VersionMismatch_versions)
                    && finding_views(out@)[a]->VersionMismatch_versions.to_set() == dep_versions(
                    ms@,
                    finding_views(out@)[a]->VersionMismatch_dep,
                ).to_set()),
        decreases keys@.len() - t,
    {
        let ghost fv = finding_views(out@);
        let ghost fk = fv.map_values(|f: FindingView| f->VersionMismatch_dep);
        let ghost k = ks[t as int];
        assert(ks.take(t + 1) =~= ks.take(t as int).push(k));
        proof {
            ks.take(t as int).lemma_push_to_set_commute(k);
        }
        let versions = dep_versions_of(ms, keys[t].as_str());
        let unique = sorted_distinct(&versions);
        proof {
            lemma_distinct_count(views(unique@), views(versions@));
        }
        if unique.len() > 1 {
            out.push(Finding::VersionMismatch { dep: keys[t].clone(), versions: unique });
            let ghost nfv = finding_views(out@);
            let ghost nfk = nfv.map_values(|f: FindingView| f->VersionMismatch_dep);
            assert(nfv =~= fv.push(nfv.last()));
            assert(nfk =~= fk.push(k));
            proof {
                fk.lemma_push_to_set_commute(k);
                assert forall|a: int, b: int| 0 <= a < b < nfk.len() implies crate::order::lex_lt(
                    #[trigger] nfk[a],
                    #[trigger] nfk[b],
                ) by {
                    if b < fk.len() {
                        assert(nfk[a] == fk[a] && nfk[b] == fk[b]);
                    } else {
                        assert(nfk[a] == fv[a]->VersionMismatch_dep);
                        assert(nfk[b] == k);
                    }
                }
                assert forall|a: int, b: int|
                    #![trigger finding_views(out@)[a], ks[b]]
                    0 <= a < out@.len() && t + 1 <= b < ks.len() implies crate::order::lex_lt(
                    finding_views(out@)[a]->VersionMismatch_dep,
                    ks[b],
                ) by {
                    if a < fv.len() {
                        assert(finding_views(out@)[a] == fv[a]);
                    } else {
                        assert(crate::order::lex_lt(ks[t as int], ks[b]));
                    }
                }
                assert forall|a: int| 0 <= a < out@.len() implies (#[trigger] finding_views(
                    out@,
                )[a] is VersionMismatch && strictly_sorted(
                    finding_views(out@)[a]->VersionMismatch_versions,
                ) && finding_views(out@)[a]->VersionMismatch_versions.to_set() == dep_versions(
                    ms@,
                    finding_views(out@)[a]->VersionMismatch_dep,
                ).to_set()) by {
                    if a < fv.len() {
                        assert(finding_views(out@)[a] == fv[a]);
                    }
                }
            }
            assert(nfk.to_set() =~= ks.take(t + 1).to_set().filter(pred));
        } else {
            assert(ks.take(t as int).to_set().filter(pred) =~= ks.take(t + 1).to_set().filter(
                pred,
            ));
        }
        t = t + 1;
    }
    assert(ks.take(ks.len() as int) =~= ks);
    assert(dep_names(ms@).filter(pred) =~= dep_names(ms@).filter(
        |d: Seq<char>| has_two_distinct(dep_versions(ms@, d)),
    ));
    out
}

/// `r` is what `analyze` reports: the duplicate-name findings, then the
/// version-mismatch findings.
pub open spec fn analysis(ms: Seq<PackageManifest>, r: Seq<FindingView>) -> bool {
    exists|k: int|
        0 <= k <= r.len() && duplicate_findings(ms, #[trigger] r.take(k)) && mismatch_findings(
            ms,
            r.skip(k),
        )
}

/// Analyze a set of manifests for cross-repo anomalies: package names
/// declared at different versions, then dependencies declared at
/// different versions.
pub fn analyze(manifests: &[PackageManifest]) -> (r: Vec<Finding>)
    ensures
        analysis(manifests@, finding_views(r@)),
{
    let mut r = duplicate_name_findings(manifests);
    let ghost k = r@.len() as int;
    let ghost d = finding_views(r@);
    let mut m = version_mismatch_findings(manifests);
    let ghost mv = finding_views(m@);
    r.append(&mut m);
    assert(finding_views(r@).take(k) =~= d);
    assert(finding_views(r@).skip(k) =~= mv);
    r
}

/// The package names of the workspace.
pub open spec fn workspace(ms: Seq<PackageManifest>) -> Set<Seq<char>> {
    names_of(ms).to_set()
}

/// Package `a` depends on the other workspace package `b`: some
/// manifest named `a` lists `b` among its dependencies.
pub open spec fn depends_on(ms: Seq<PackageManifest>, a: Seq<char>, b: Seq<char>) -> bool {
    &&& b != a
    &&& workspace(ms).contains(b)
    &&& exists|i: int, k: int|
        #![trigger ms[i].deps@[k]]
        0 <= i < ms.len() && 0 <= k < ms[i].deps@.len() && ms[i].name@ == a && ms[i].deps@[k].name@
            == b
}

/// The packages that can publish once `done` has: not yet published,
/// with every workspace dependency published.
pub open spec fn ready(ms: Seq<PackageManifest>, done: Set<Seq<char>>) -> Set<Seq<char>> {
    workspace(ms).filter(
        |a: Seq<char>|
            !done.contains(a) && forall|b: Seq<char>| #[trigger] depends_on(ms, a, b) ==> done.contains(b),
    )
}

/// The tiers that publish after `done`, for at most `fuel` rounds: each
/// tier is everything ready once the earlier ones have published.
pub open spec fn tiers_from(ms: Seq<PackageManifest>, done: Set<Seq<char>>, fuel: nat) -> Seq<
    Set<Seq<char>>,
>
    decreases fuel,
{
    if fuel == 0 || ready(ms, done).is_empty() {
        seq![]
    } else {
        seq![ready(ms, done)] + tiers_from(ms, done.union(ready(ms, done)), (fuel - 1) as nat)
    }
}

/// What has published after those rounds.
pub open spec fn covered_from(ms: Seq<PackageManifest>, done: Set<Seq<char>>, fuel: nat) -> Set<
    Seq<char>,
>
    decreases fuel,
{
    if fuel == 0 || ready(ms, done).is_empty() {
        done
    } else {
        covered_from(ms, done.union(ready(ms, done)), (fuel - 1) as nat)
    }
}

/// The publish tiers of the workspace: tier 0 has no workspace
/// dependencies, each later tier depends only on earlier ones.
pub open spec fn publish_tiers(ms: Seq<PackageManifest>) -> Seq<Set<Seq<char>>> {
    tiers_from(ms, Set::empty(), ms.len() as nat)
}

/// The packages that reach some tier.
pub open spec fn published(ms: Seq<PackageManifest>) -> Set<Seq<char>> {
    covered_from(ms, Set::empty(), ms.len() as nat)
}

proof fn lemma_tiers_from_deps(
    ms: Seq<PackageManifest>,
    done: Set<Seq<char>>,
    fuel: nat,
    k: int,
    a: Seq<char>,
    b: Seq<char>,
)
    requires
        0 <= k < tiers_from(ms, done, fuel).len(),
        tiers_from(ms, done, fuel)[k].contains(a),
        depends_on(ms, a, b),
    ensures
        done.contains(b) || exists|j: int| 0 <= j < k && #[trigger] tiers_from(ms, done, fuel)[j].contains(b),
    decreases fuel,
{
    let r = ready(ms, done);
    let t = tiers_from(ms, done, fuel);
    let nd = done.union(r);
    let rest = tiers_from(ms, nd, (fuel - 1) as nat);
    assert(t =~= seq![r] + rest);
    if k == 0 {
        assert(t[0] == r);
        assert(r.contains(a));
    } else {
        assert(t[k] == rest[k - 1]);
        lemma_tiers_from_deps(ms, nd, (fuel - 1) as nat, k - 1, a, b);
        if nd.contains(b) {
            if !done.contains(b) {
                assert(t[0].contains(b));
            }
        } else {
            let j = choose|j: int| 0 <= j < k - 1 && #[trigger] rest[j].contains(b);
            assert(t[j + 1] == rest[j]);
        }
    }
}

proof fn lemma_covered_in_tier(ms: Seq<PackageManifest>, done: Set<Seq<char>>, fuel: nat, x: Seq<char>)
    requires
        covered_from(ms, done, fuel).contains(x),
        !done.contains(x),
    ensures
        exists|k: int| 0 <= k < tiers_from(ms, done, fuel).len() && #[trigger] tiers_from(ms, done, fuel)[k].contains(x),
    decreases fuel,
{
    if fuel > 0 && !ready(ms, done).is_empty() {
        let r = ready(ms, done);
        let t = tiers_from(ms, done, fuel);
        let nd = done.union(r);
        let rest = tiers_from(ms, nd, (fuel - 1) as nat);
        assert(t =~= seq![r] + rest);
        if r.contains(x) {
            assert(t[0].contains(x));
        } else {
            lemma_covered_in_tier(ms, nd, (fuel - 1) as nat, x);
            let k = choose|k: int| 0 <= k < rest.len() && #[trigger] rest[k].contains(x);
            assert(t[k + 1] == rest[k]);
        }
    }
}

proof fn lemma_first_tier(t: Seq<Set<Seq<char>>>, x: Seq<char>, k: int)
    requires
        0 <= k < t.len(),
        t[k].contains(x),
    ensures
        exists|m: int|
            0 <= m <= k && #[trigger] t[m].contains(x) && forall|j: int| 0 <= j < m ==> !#[trigger] t[j].contains(x),
    decreases k,
{
    if exists|j: int| 0 <= j < k && #[trigger] t[j].contains(x) {
        let j = choose|j: int| 0 <= j < k && #[trigger] t[j].contains(x);
        lemma_first_tier(t, x, j);
    } else {
        assert(t[k].contains(x));
    }
}

/// In the publish order, every workspace dependency of a package in a
/// tier publishes in an earlier tier.
pub proof fn lemma_tier_dependencies_publish_first(ms: Seq<PackageManifest>, k: int, a: Seq<char>, b: Seq<char>)
    requires
        0 <= k < publish_tiers(ms).len(),
        publish_tiers(ms)[k].contains(a),
        depends_on(ms, a, b),
    ensures
        exists|j: int| 0 <= j < k && #[trigger] publish_tiers(ms)[j].contains(b),
{
    lemma_tiers_from_deps(ms, Set::empty(), ms.len() as nat, k, a, b);
}

/// Step `i` of a chain of packages: package `i` depends on package `i + 1`.
pub open spec fn chain_step(ms: Seq<PackageManifest>, c: Seq<Seq<char>>, i: int) -> bool {
    depends_on(ms, c[i], c[i + 1])
}

/// A dependency cycle: a chain of at least one step in which each
/// package depends on the next and the last is the first.
pub open spec fn dependency_cycle(ms: Seq<PackageManifest>, c: Seq<Seq<char>>) -> bool {
    &&& c.len() >= 2
    &&& c[0] == c.last()
    &&& forall|i: int| 0 <= i < c.len() - 1 ==> #[trigger] chain_step(ms, c, i)
}

proof fn lemma_chain_descends(ms: Seq<PackageManifest>, c: Seq<Seq<char>>, m0: int, i: int)
    requires
        dependency_cycle(ms, c),
        0 <= m0 < publish_tiers(ms).len(),
        publish_tiers(ms)[m0].contains(c[0]),
        0 <= i < c.len(),
    ensures
        exists|k: int| 0 <= k <= m0 - i && #[trigger] publish_tiers(ms)[k].contains(c[i]),
    decreases i,
{
    let t = publish_tiers(ms);
    if i > 0 {
        lemma_chain_descends(ms, c, m0, i - 1);
        let k = choose|k: int| 0 <= k <= m0 - (i - 1) && #[trigger] t[k].contains(c[i - 1]);
        assert(chain_step(ms, c, i - 1));
        lemma_tier_dependencies_publish_first(ms, k, c[i - 1], c[i]);
        let j = choose|j: int| 0 <= j < k && #[trigger] t[j].contains(c[i]);
        assert(t[j].contains(c[i]));
    }
}

/// When every workspace package reaches a publish tier, the workspace
/// has no dependency cycle.
pub proof fn lemma_all_published_means_acyclic(ms: Seq<PackageManifest>, c: Seq<Seq<char>>)
    requires
        published(ms) == workspace(ms),
    ensures
        !dependency_cycle(ms, c),
{
    if dependency_cycle(ms, c) {
        let t = publish_tiers(ms);
        let n = c.len() - 1;
        assert(chain_step(ms, c, n - 1));
        assert(workspace(ms).contains(c[0]));
        lemma_covered_in_tier(ms, Set::empty(), ms.len() as nat, c[0]);
        let k = choose|k: int| 0 <= k < t.len() && #[trigger] t[k].contains(c[0]);
        lemma_first_tier(t, c[0], k);
        let m0 = choose|m: int|
            0 <= m <= k && #[trigger] t[m].contains(c[0]) && forall|j: int| 0 <= j < m ==> !#[trigger] t[j].contains(c[0]);
        lemma_chain_descends(ms, c, m0, n);
        let kn = choose|kk: int| 0 <= kk <= m0 - n && #[trigger] t[kk].contains(c[n]);
        assert(c[n] == c[0]);
        assert(!t[kn].contains(c[0]));
    }
}

/// Two manifests declare the same package name.
pub open spec fn has_duplicate_names(ms: Seq<PackageManifest>) -> bool {
    exists|i: int, j: int| 0 <= i < j < ms.len() && ms[i].name@ == ms[j].name@
}

/// The entries of `s` with later repeats dropped.
pub open spec fn distinct_in_order(s: Seq<Seq<char>>) -> Seq<Seq<char>>
    decreases s.len(),
{
    if s.len() == 0 {
        seq![]
    } else {
        let r = distinct_in_order(s.drop_last());
        if r.contains(s.last()) {
            r
        } else {
            r.push(s.last())
        }
    }
}

/// No entry occurs twice.
pub open spec fn no_repeats(s: Seq<Seq<char>>) -> bool {
    forall|i: int, j: int| 0 <= i < j < s.len() ==> #[trigger] s[i] != #[trigger] s[j]
}

/// The error of an unpublishable workspace: the packages that reach no
/// tier, in order of first appearance.
pub open spec fn cycle_message(ms: Seq<PackageManifest>) -> Seq<char> {
    "dependency cycle detected among: "@ + join(
        distinct_in_order(names_of(ms)).filter(|n: Seq<char>| !published(ms).contains(n)),
        ", "@,
    )
}

/// The names marked done.
pub open spec fn done_names(nodes: Seq<Seq<char>>, done: Seq<bool>) -> Set<Seq<char>> {
    Set::new(|x: Seq<char>| exists|j: int| 0 <= j < nodes.len() && nodes[j] == x && #[trigger] done[j])
}

proof fn lemma_distinct_in_order(s: Seq<Seq<char>>)
    ensures
        distinct_in_order(s).to_set() == s.to_set(),
        no_repeats(distinct_in_order(s)),
    decreases s.len(),
{
    if s.len() > 0 {
        let p = s.drop_last();
        lemma_distinct_in_order(p);
        let r = distinct_in_order(p);
        assert(s =~= p.push(s.last()));
        p.lemma_push_to_set_commute(s.last());
        if r.contains(s.last()) {
            assert(r.to_set().contains(s.last()));
            assert(s.to_set() =~= p.to_set());
        } else {
            r.lemma_push_to_set_commute(s.last());
            let n = r.push(s.last());
            assert forall|i: int, j: int| 0 <= i < j < n.len() implies #[trigger] n[i] != #[trigger] n[j] by {
                if j == r.len() {
                    assert(n[i] == r[i]);
                }
            }
        }
    }
}

/// The distinct package names in order of first appearance, and
/// whether some name appears twice.
fn distinct_names(ms: &[PackageManifest]) -> (r: (Vec<String>, bool))
    ensures
        views(r.0@) == distinct_in_order(names_of(ms@)),
        r.1 == has_duplicate_names(ms@),
{
    let mut out: Vec<String> = Vec::new();
    let mut dup = false;
    let mut i: usize = 0;
    while i < ms.len()
        invariant
            i <= ms@.len(),
            views(out@) == distinct_in_order(names_of(ms@).take(i as int)),
            dup == exists|a: int, b: int| 0 <= a < b < i && ms@[a].name@ == ms@[b].name@,
        decreases ms@.len() - i,
    {
        let ghost p = names_of(ms@).take(i as int);
        assert(names_of(ms@).take(i + 1).drop_last() =~= p);
        proof {
            lemma_distinct_in_order(p);
        }
        match index_of(&out, ms[i].name.as_str()) {
            Some(j) => {
                proof {
                    assert(views(out@)[j as int] == ms@[i as int].name@);
                    assert(views(out@).to_set().contains(ms@[i as int].name@));
                    assert(p.to_set().contains(ms@[i as int].name@));
                    let a = choose|a: int| 0 <= a < p.len() && p[a] == ms@[i as int].name@;
                    assert(ms@[a].name@ == ms@[i as int].name@);
                }
                dup = true;
            },
            None => {
                assert(!p.to_set().contains(ms@[i as int].name@));
                assert forall|a: int| 0 <= a < i implies ms@[a].name@ != ms@[i as int].name@ by {
                    assert(p[a] == ms@[a].name@);
                }
                let ghost prev = out@;
                out.push(ms[i].name.clone());
                assert(views(out@) =~= views(prev).push(ms@[i as int].name@));
            },
        }
        i = i + 1;
    }
    assert(names_of(ms@).take(ms@.len() as int) =~= names_of(ms@));
    (out, dup)
}

/// The position of `x` in `v`, if it is there.
fn index_of(v: &Vec<String>, x: &str) -> (r: Option<usize>)
    ensures
        match r {
            Some(j) => j < v@.len() && v@[j as int]@ == x@,
            None => !views(v@).contains(x@),
        },
{
    let mut j: usize = 0;
    while j < v.len()
        invariant
            j <= v@.len(),
            forall|k: int| 0 <= k < j ==> v@[k]@ != x@,
        decreases v@.len() - j,
    {
        if eq_str(v[j].as_str(), x) {
            return Some(j);
        }
        j = j + 1;
    }
    assert forall|k: int| 0 <= k < views(v@).len() implies views(v@)[k] != x@ by {
        assert(views(v@)[k] == v@[k]@);
    }
    None
}

/// Whether every workspace dependency of `a` is marked done.
fn is_ready(ms: &[PackageManifest], nodes: &Vec<String>, done: &Vec<bool>, a: &str) -> (r: bool)
    requires
        done@.len() == nodes@.len(),
        views(nodes@).to_set() == workspace(ms@),
        no_repeats(views(nodes@)),
    ensures
        r == forall|b: Seq<char>| #[trigger] depends_on(ms@, a@, b) ==> done_names(views(nodes@), done@).contains(b),
{
    let ghost dn = done_names(views(nodes@), done@);
    let mut i: usize = 0;
    while i < ms.len()
        invariant
            i <= ms@.len(),
            done@.len() == nodes@.len(),
            views(nodes@).to_set() == workspace(ms@),
            no_repeats(views(nodes@)),
            dn == done_names(views(nodes@), done@),
            forall|ii: int, k: int|
                #![trigger ms@[ii].deps@[k]]
                0 <= ii < i && 0 <= k < ms@[ii].deps@.len() && ms@[ii].name@ == a@
                    && ms@[ii].deps@[k].name@ != a@ && workspace(ms@).contains(ms@[ii].deps@[k].name@)
                    ==> dn.contains(ms@[ii].deps@[k].name@),
        decreases ms@.len() - i,
    {
        if eq_str(ms[i].name.as_str(), a) {
            let mut k: usize = 0;
            while k < ms[i].deps.len()
                invariant
                    i < ms@.len(),
                    k <= ms@[i as int].deps@.len(),
                    ms@[i as int].name@ == a@,
                    done@.len() == nodes@.len(),
                    views(nodes@).to_set() == workspace(ms@),
                    no_repeats(views(nodes@)),
                    dn == done_names(views(nodes@), done@),
                    forall|ii: int, kk: int|
                        #![trigger ms@[ii].deps@[kk]]
                        0 <= ii < i && 0 <= kk < ms@[ii].deps@.len() && ms@[ii].name@ == a@
                            && ms@[ii].deps@[kk].name@ != a@ && workspace(ms@).contains(
                            ms@[ii].deps@[kk].name@,
                        ) ==> dn.contains(ms@[ii].deps@[kk].name@),
                    forall|kk: int|
                        #![trigger ms@[i as int].deps@[kk]]
                        0 <= kk < k && ms@[i as int].deps@[kk].name@ != a@ && workspace(ms@).contains(
                            ms@[i as int].deps@[kk].name@,
                        ) ==> dn.contains(ms@[i as int].deps@[kk].name@),
                decreases ms@[i as int].deps@.len() - k,
            {
                let b = ms[i].deps[k].name.as_str();
                if !eq_str(b, a) {
                    match index_of(nodes, b) {
                        Some(j) => {
                            if !done[j] {
                                proof {
                                    let bb = ms@[i as int].deps@[k as int].name@;
                                    assert(views(nodes@)[j as int] == bb);
                                    assert(views(nodes@).to_set().contains(bb));
                                    assert(depends_on(ms@, a@, bb));
                                    if dn.contains(bb) {
                                        let jj = choose|jj: int|
                                            0 <= jj < views(nodes@).len() && views(nodes@)[jj] == bb
                                                && #[trigger] done@[jj];
                                        assert(jj == j);
                                    }
                                }
                                return false;
                            }
                            assert(dn.contains(views(nodes@)[j as int]));
                        },
                        None => {
                            assert(!views(nodes@).to_set().contains(ms@[i as int].deps@[k as int].name@));
                        },
                    }
                }
                k = k + 1;
            }
        }
        i = i + 1;
    }
    assert forall|b: Seq<char>| #[trigger] depends_on(ms@, a@, b) implies dn.contains(b) by {
        let (ii, k) = choose|ii: int, k: int|
            #![trigger ms@[ii].deps@[k]]
            0 <= ii < ms@.len() && 0 <= k < ms@[ii].deps@.len() && ms@[ii].name@ == a@
                && ms@[ii].deps@[k].name@ == b;
    }
    true
}

/// Topological sort of workspace packages into publish tiers.
///
/// Tier 0 has no in-workspace deps, tier 1 depends only on tier 0, and
/// so on; each tier can publish in parallel and lists its names in
/// order. A dependency cycle (or a package declared twice) is an error
/// naming the packages that reach no tier.
pub fn build_publish_order(manifests: &[PackageManifest]) -> (r: Result<Vec<Vec<String>>, String>)
    ensures
        match r {
            Ok(t) => {
                &&& !has_duplicate_names(manifests@)
                &&& published(manifests@) == workspace(manifests@)
                &&& t@.len() == publish_tiers(manifests@).len()
                &&& forall|k: int|
                    0 <= k < t@.len() ==> strictly_sorted(views(#[trigger] t@[k]@)) && views(
                        t@[k]@,
                    ).to_set() == publish_tiers(manifests@)[k]
            },
            Err(e) => {
                &&& (has_duplicate_names(manifests@) || published(manifests@) != workspace(
                    manifests@,
                ))
                &&& e@ == cycle_message(manifests@)
            },
        },
{
    let ghost ms = manifests@;
    let (nodes, dup) = distinct_names(manifests);
    let ghost nv = views(nodes@);
    proof {
        lemma_distinct_in_order(names_of(ms));
    }
    let nn = nodes.len();
    let mut done: Vec<bool> = Vec::new();
    while done.len() < nn
        invariant
            done@.len() <= nn,
            forall|j: int| 0 <= j < done@.len() ==> !#[trigger] done@[j],
        decreases nn - done@.len(),
    {
        done.push(false);
    }
    assert(done_names(nv, done@) =~= Set::<Seq<char>>::empty());
    let mut tiers: Vec<Vec<String>> = Vec::new();
    let ghost mut gt: Seq<Set<Seq<char>>> = seq![];
    let ghost mut dset: Set<Seq<char>> = Set::empty();
    let mut fuel: usize = manifests.len();
    assert(gt + tiers_from(ms, dset, fuel as nat) =~= publish_tiers(ms));
    while fuel > 0
        invariant
            nv == views(nodes@),
            nn == nodes@.len(),
            nv.to_set() == workspace(ms),
            no_repeats(nv),
            ms == manifests@,
            done@.len() == nn,
            done_names(nv, done@) == dset,
            gt + tiers_from(ms, dset, fuel as nat) == publish_tiers(ms),
            covered_from(ms, dset, fuel as nat) == published(ms),
            tiers@.len() == gt.len(),
            forall|k: int|
                0 <= k < tiers@.len() ==> strictly_sorted(views(#[trigger] tiers@[k]@)) && views(
                    tiers@[k]@,
                ).to_set() == gt[k],
        decreases fuel,
    {
        let ghost rd = ready(ms, dset);
        let mut tier_names: Vec<String> = Vec::new();
        let mut next: Vec<bool> = Vec::new();
        let mut i: usize = 0;
        while i < nn
            invariant
                i <= nn,
                nv == views(nodes@),
                nn == nodes@.len(),
                nv.to_set() == workspace(ms),
                no_repeats(nv),
                ms == manifests@,
                done@.len() == nn,
                done_names(nv, done@) == dset,
                rd == ready(ms, dset),
                next@.len() == i,
                forall|j: int| 0 <= j < i ==> #[trigger] next@[j] == (done@[j] || rd.contains(nv[j])),
                views(tier_names@).to_set() == nv.take(i as int).to_set().filter(
                    |x: Seq<char>| rd.contains(x),
                ),
            decreases nn - i,
        {
            let ghost x = nv[i as int];
            proof {
                assert(nv.to_set().contains(x));
                if dset.contains(x) {
                    let jj = choose|jj: int| 0 <= jj < nv.len() && nv[jj] == x && #[trigger] done@[jj];
                    assert(jj == i);
                }
                if done@[i as int] {
                    assert(dset.contains(x));
                }
            }
            let r = !done[i] && is_ready(manifests, &nodes, &done, nodes[i].as_str());
            assert(r == rd.contains(x));
            assert(nv.take(i + 1) =~= nv.take(i as int).push(x));
            proof {
                nv.take(i as int).lemma_push_to_set_commute(x);
            }
            if r {
                let ghost prev = tier_names@;
                tier_names.push(nodes[i].clone());
                assert(views(tier_names@) =~= views(prev).push(x));
                proof {
                    views(prev).lemma_push_to_set_commute(x);
                }
            }
            assert(views(tier_names@).to_set() =~= nv.take(i + 1).to_set().filter(
                |y: Seq<char>| rd.contains(y),
            ));
            next.push(done[i] || r);
            i = i + 1;
        }
        assert(nv.take(nn as int) =~= nv);
        assert(views(tier_names@).to_set() =~= rd);
        if tier_names.len() == 0 {
            assert(rd =~= Set::<Seq<char>>::empty()) by {
                assert forall|y: Seq<char>| !rd.contains(y) by {
                    if rd.contains(y) {
                        assert(views(tier_names@).to_set().contains(y));
                    }
                }
            }
            fuel = 0;
        } else {
            assert(views(tier_names@).to_set().contains(views(tier_names@)[0]));
            assert(rd.contains(views(tier_names@)[0]));
            let sorted = sorted_distinct(&tier_names);
            let ghost old_done = done@;
            done = next;
            assert(done_names(nv, done@) =~= dset.union(rd)) by {
                assert forall|y: Seq<char>| done_names(nv, done@).contains(y) <==> dset.union(
                    rd,
                ).contains(y) by {
                    if done_names(nv, done@).contains(y) {
                        let jj = choose|jj: int| 0 <= jj < nv.len() && nv[jj] == y && #[trigger] done@[jj];
                        if !rd.contains(y) {
                            assert(old_done[jj]);
                            assert(done_names(nv, old_done).contains(y));
                        }
                    }
                    if dset.contains(y) {
                        let jj = choose|jj: int| 0 <= jj < nv.len() && nv[jj] == y && #[trigger] old_done[jj];
                        assert(done@[jj]);
                    }
                    if rd.contains(y) {
                        assert(nv.to_set().contains(y));
                        let jj = choose|jj: int| 0 <= jj < nv.len() && nv[jj] == y;
                        assert(done@[jj]);
                    }
                }
            }
            tiers.push(sorted);
            proof {
                let old_gt = gt;
                gt = gt.push(rd);
                assert(gt + tiers_from(ms, dset.union(rd), (fuel - 1) as nat) =~= old_gt
                    + tiers_from(ms, dset, fuel as nat));
                dset = dset.union(rd);
            }
            fuel = fuel - 1;
        }
    }
    let mut all_done = true;
    let mut j: usize = 0;
    while j < nn
        invariant
            j <= nn,
            done@.len() == nn,
            all_done == forall|k: int| 0 <= k < j ==> #[trigger] done@[k],
        decreases nn - j,
    {
        if !done[j] {
            all_done = false;
        }
        j = j + 1;
    }
    assert(published(ms) == dset);
    proof {
        if all_done {
            assert forall|y: Seq<char>| workspace(ms).contains(y) implies dset.contains(y) by {
                assert(nv.to_set().contains(y));
                let jj = choose|jj: int| 0 <= jj < nv.len() && nv[jj] == y;
                assert(done@[jj]);
            }
            assert(dset =~= workspace(ms));
        } else {
            let k = choose|k: int| 0 <= k < nn && !#[trigger] done@[k];
            assert(nv.to_set().contains(nv[k]));
            if dset.contains(nv[k]) {
                let jj = choose|jj: int| 0 <= jj < nv.len() && nv[jj] == nv[k] && #[trigger] done@[jj];
                assert(jj == k);
            }
        }
    }
    if !dup && all_done {
        Ok(tiers)
    } else {
        let ghost pred = |n: Seq<char>| !published(ms).contains(n);
        let mut stuck: Vec<String> = Vec::new();
        let mut i: usize = 0;
        while i < nn
            invariant
                i <= nn,
                nv == views(nodes@),
                nn == nodes@.len(),
                no_repeats(nv),
                done@.len() == nn,
                done_names(nv, done@) == published(ms),
                pred == (|n: Seq<char>| !published(ms).contains(n)),
                views(stuck@) == nv.take(i as int).filter(pred),
            decreases nn - i,
        {
            proof {
                reveal(Seq::filter);
                assert(nv.take(i + 1).drop_last() =~= nv.take(i as int));
                let x = nv[i as int];
                if published(ms).contains(x) {
                    let jj = choose|jj: int| 0 <= jj < nv.len() && nv[jj] == x && #[trigger] done@[jj];
                    assert(jj == i);
                }
                if done@[i as int] {
                    assert(published(ms).contains(x));
                }
            }
            if !done[i] {
                let ghost prev = stuck@;
                stuck.push(nodes[i].clone());
                assert(views(stuck@) =~= views(prev).push(nv[i as int]));
            }
            i = i + 1;
        }
        assert(nv.take(nn as int) =~= nv);
        let listed = join_strings(&stuck, ", ");
        Err(concat("dependency cycle detected among: ", listed.as_str()))
    }
}

proof fn lemma_tiers_from(ms: Seq<PackageManifest>, done: Set<Seq<char>>, fuel: nat)
    ensures
        forall|k: int, x: Seq<char>|
            0 <= k < tiers_from(ms, done, fuel).len() && #[trigger] tiers_from(ms, done, fuel)[k].contains(x)
                ==> !done.contains(x) && workspace(ms).contains(x),
        forall|k: int, x: Seq<char>, b: Seq<char>|
            0 <= k < tiers_from(ms, done, fuel).len() && #[trigger] tiers_from(ms, done, fuel)[k].contains(x)
                && #[trigger] depends_on(ms, x, b) ==> done.contains(b) || exists|j: int|
                0 <= j < k && #[trigger] tiers_from(ms, done, fuel)[j].contains(b),
        forall|j: int, k: int, x: Seq<char>|
            0 <= j < k < tiers_from(ms, done, fuel).len() && #[trigger] tiers_from(ms, done, fuel)[j].contains(x)
                ==> !#[trigger] tiers_from(ms, done, fuel)[k].contains(x),
        forall|x: Seq<char>|
            #[trigger] covered_from(ms, done, fuel).contains(x) <==> done.contains(x) || exists|k: int|
                0 <= k < tiers_from(ms, done, fuel).len() && #[trigger] tiers_from(ms, done, fuel)[k].contains(x),
    decreases fuel,
{
    if fuel > 0 && !ready(ms, done).is_empty() {
        let r = ready(ms, done);
        let nd = done.union(r);
        let t = tiers_from(ms, done, fuel);
        let t2 = tiers_from(ms, nd, (fuel - 1) as nat);
        lemma_tiers_from(ms, nd, (fuel - 1) as nat);
        assert(t =~= seq![r] + t2);
        assert forall|k: int, x: Seq<char>| 0 <= k < t.len() && #[trigger] t[k].contains(x) implies !done.contains(x)
            && workspace(ms).contains(x) by {
            if k > 0 {
                assert(t[k] == t2[k - 1]);
            }
        }
        assert forall|k: int, x: Seq<char>, b: Seq<char>|
            0 <= k < t.len() && #[trigger] t[k].contains(x) && #[trigger] depends_on(ms, x, b) implies done.contains(b)
            || exists|j: int| 0 <= j < k && #[trigger] t[j].contains(b) by {
            if k > 0 {
                assert(t[k] == t2[k - 1]);
                if r.contains(b) {
                    assert(t[0].contains(b));
                } else if !done.contains(b) {
                    let j = choose|j: int| 0 <= j < k - 1 && #[trigger] t2[j].contains(b);
                    assert(t[j + 1] == t2[j]);
                }
            }
        }
        assert forall|j: int, k: int, x: Seq<char>|
            0 <= j < k < t.len() && #[trigger] t[j].contains(x) implies !#[trigger] t[k].contains(x) by {
            assert(t[k] == t2[k - 1]);
            if j > 0 {
                assert(t[j] == t2[j - 1]);
            }
        }
        assert forall|x: Seq<char>|
            #[trigger] covered_from(ms, done, fuel).contains(x) <==> done.contains(x) || exists|k: int|
                0 <= k < t.len() && #[trigger] t[k].contains(x) by {
            assert(covered_from(ms, done, fuel) == covered_from(ms, nd, (fuel - 1) as nat));
            assert(covered_from(ms, nd, (fuel - 1) as nat).contains(x) <==> nd.contains(x) || exists|k: int|
                0 <= k < t2.len() && #[trigger] t2[k].contains(x));
            if covered_from(ms, done, fuel).contains(x) && !done.contains(x) {
                if r.contains(x) {
                    assert(t[0].contains(x));
                } else {
                    let k = choose|k: int| 0 <= k < t2.len() && #[trigger] t2[k].contains(x);
                    assert(t[k + 1] == t2[k]);
                }
            }
            if exists|k: int| 0 <= k < t.len() && #[trigger] t[k].contains(x) {
                let k = choose|k: int| 0 <= k < t.len() && #[trigger] t[k].contains(x);
                if k > 0 {
                    assert(t[k] == t2[k - 1]);
                    assert(t2[k - 1].contains(x));
                }
            }
        }
    }
}

/// Every package of a tier has each of its workspace dependencies in
/// an earlier tier: publishing tier by tier, a dependency always goes
/// out before what depends on it.
pub proof fn lemma_dependencies_publish_first(ms: Seq<PackageManifest>, k: int, a: Seq<char>, b: Seq<char>)
    requires
        0 <= k < publish_tiers(ms).len(),
        publish_tiers(ms)[k].contains(a),
        depends_on(ms, a, b),
    ensures
        exists|j: int| 0 <= j < k && #[trigger] publish_tiers(ms)[j].contains(b),
{
    lemma_tiers_from(ms, Set::empty(), ms.len() as nat);
    assert(publish_tiers(ms)[k].contains(a) && depends_on(ms, a, b));
}

/// No package is in two tiers, so no package of a tier depends on
/// another of the same tier.
pub proof fn lemma_tiers_disjoint(ms: Seq<PackageManifest>, j: int, k: int, a: Seq<char>)
    requires
        0 <= j < k < publish_tiers(ms).len(),
        publish_tiers(ms)[j].contains(a),
    ensures
        !publish_tiers(ms)[k].contains(a),
{
    lemma_tiers_from(ms, Set::empty(), ms.len() as nat);
}

/// When every package publishes, each one is in some tier, and tiers
/// hold nothing but workspace packages.
pub proof fn lemma_tiers_cover_workspace(ms: Seq<PackageManifest>, a: Seq<char>)
    requires
        published(ms) == workspace(ms),
    ensures
        workspace(ms).contains(a) <==> exists|k: int|
            0 <= k < publish_tiers(ms).len() && #[trigger] publish_tiers(ms)[k].contains(a),
{
    let t = tiers_from(ms, Set::empty(), ms.len() as nat);
    lemma_tiers_from(ms, Set::empty(), ms.len() as nat);
    assert(covered_from(ms, Set::empty(), ms.len() as nat).contains(a) <==> Set::<Seq<char>>::empty().contains(a)
        || exists|k: int| 0 <= k < t.len() && #[trigger] t[k].contains(a));
    assert(publish_tiers(ms) == t);
    assert(published(ms) == covered_from(ms, Set::empty(), ms.len() as nat));
    if exists|k: int| 0 <= k < t.len() && #[trigger] t[k].contains(a) {
        let k = choose|k: int| 0 <= k < t.len() && #[trigger] t[k].contains(a);
        assert(t[k].contains(a));
        assert(workspace(ms).contains(a));
    }
    if workspace(ms).contains(a) {
        assert(published(ms).contains(a));
        let k = choose|k: int| 0 <= k < t.len() && #[trigger] t[k].contains(a);
        assert(publish_tiers(ms)[k].contains(a));
    }
}

// ---------------------------------------------------------------------
// Parsing manifests.
// ---------------------------------------------------------------------

/// A dependency as plain values: name, version, source.
pub open spec fn dep_view(d: Dep) -> (Seq<char>, Seq<char>, Seq<char>) {
    (d.name@, d.version@, d.source@)
}

/// The dependencies as plain values.
pub open spec fn dep_views(ds: Seq<Dep>) -> Seq<(Seq<char>, Seq<char>, Seq<char>)> {
    ds.map_values(|d: Dep| dep_view(d))
}

/// The string under `key` of `doc`, or `d`.
pub open spec fn str_field(doc: DocValue, key: Seq<char>, d: Seq<char>) -> Seq<char> {
    match get_spec(doc, key) {
        Some(DocValue::Str(s)) => s@,
        _ => d,
    }
}

fn str_field_exec(doc: &DocValue, key: &str, d: &str) -> (r: String)
    ensures
        r@ == str_field(*doc, key@, d@),
{
    match doc.get(key) {
        Some(DocValue::Str(s)) => s.clone(),
        _ => d.to_string(),
    }
}

/// The version a Cargo dependency asks for: the string itself, the
/// `version` of a table, else `*`.
pub open spec fn cargo_dep_version(v: DocValue) -> Seq<char> {
    match v {
        DocValue::Str(s) => s@,
        DocValue::Table(_) => str_field(v, "version"@, "*"@),
        _ => "*"@,
    }
}

/// The dependencies of a Cargo `[dependencies]` table.
pub open spec fn cargo_dep_list(es: Seq<(String, DocValue)>) -> Seq<(Seq<char>, Seq<char>, Seq<char>)> {
    es.map_values(|e: (String, DocValue)| (e.0@, cargo_dep_version(e.1), "cargo"@))
}

/// A manifest as plain values: kind, name, version and dependencies.
pub open spec fn manifest_view(m: PackageManifest) -> (Seq<char>, Seq<char>, Seq<char>, Seq<(Seq<char>, Seq<char>, Seq<char>)>) {
    (m.kind@, m.name@, m.version@, dep_views(m.deps@))
}

/// The manifest a parsed `Cargo.toml` declares: `[package]` name and
/// version (empty when absent) and the `[dependencies]`; an error when
/// there is no `[package]` table.
pub open spec fn cargo_manifest(doc: DocValue) -> Result<(Seq<char>, Seq<char>, Seq<char>, Seq<(Seq<char>, Seq<char>, Seq<char>)>), Seq<char>> {
    match get_spec(doc, "package"@) {
        Some(pkg) => if pkg is Table {
            Ok((
                "cargo"@,
                str_field(pkg, "name"@, ""@),
                str_field(pkg, "version"@, ""@),
                match get_spec(doc, "dependencies"@) {
                    Some(DocValue::Table(t)) => cargo_dep_list(t@),
                    _ => Seq::empty(),
                },
            ))
        } else {
            Err("missing [package]"@)
        },
        None => Err("missing [package]"@),
    }
}

/// The result of a parse as plain values, with the error's message.
pub open spec fn parse_view(r: Result<PackageManifest, ManifestError>, file: Seq<char>) -> Result<(Seq<char>, Seq<char>, Seq<char>, Seq<(Seq<char>, Seq<char>, Seq<char>)>), Seq<char>> {
    match r {
        Ok(m) => Ok(manifest_view(m)),
        Err(ManifestError::ParseError { file: f, message }) => if f@ == file {
            Err(message@)
        } else {
            Err("\u{0}"@)
        },
        Err(_) => Err("\u{0}"@),
    }
}

fn push_dep(deps: &mut Vec<Dep>, name: String, version: String, source: &str)
    ensures
        dep_views(final(deps)@) == dep_views(old(deps)@).push((name@, version@, source@)),
{
    let ghost before = dep_views(deps@);
    deps.push(Dep { name, version, source: source.to_string() });
    assert(dep_views(deps@) =~= before.push((name@, version@, source@)));
}

/// The manifest of a parsed `Cargo.toml` (`file` names it in errors).
pub fn parse_cargo_doc(doc: &DocValue, file: &str) -> (r: Result<PackageManifest, ManifestError>)
    ensures
        parse_view(r, file@) == cargo_manifest(*doc),
{
    let pkg = match doc.get("package") {
        Some(p) => match p {
            DocValue::Table(_) => p,
            _ => {
                return Err(ManifestError::ParseError { file: file.to_string(), message: "missing [package]".to_string() });
            },
        },
        None => {
            return Err(ManifestError::ParseError { file: file.to_string(), message: "missing [package]".to_string() });
        },
    };
    let name = str_field_exec(pkg, "name", "");
    let version = str_field_exec(pkg, "version", "");
    let mut deps: Vec<Dep> = Vec::new();
    match doc.get("dependencies") {
        Some(DocValue::Table(t)) => {
            let mut i: usize = 0;
            while i < t.len()
                invariant
                    i <= t@.len(),
                    dep_views(deps@) == cargo_dep_list(t@.take(i as int)),
                decreases t@.len() - i,
            {
                let v = match &t[i].1 {
                    DocValue::Str(s) => s.clone(),
                    DocValue::Table(_) => str_field_exec(&t[i].1, "version", "*"),
                    _ => "*".to_string(),
                };
                push_dep(&mut deps, t[i].0.clone(), v, "cargo");
                assert(cargo_dep_list(t@.take(i + 1)) =~= cargo_dep_list(t@.take(i as int)).push(
                    (t@[i as int].0@, cargo_dep_version(t@[i as int].1), "cargo"@),
                ));
                i = i + 1;
            }
            assert(t@.take(i as int) =~= t@);
        },
        _ => {
            assert(dep_views(deps@) =~= Seq::empty());
        },
    }
    Ok(PackageManifest { kind: "cargo".to_string(), name, version, deps })
}

/// The dependencies of one npm dependency object: each name with its
/// specifier when it is a string, else `*`.
pub open spec fn npm_dep_list(es: Seq<(String, DocValue)>) -> Seq<(Seq<char>, Seq<char>, Seq<char>)> {
    es.map_values(
        |e: (String, DocValue)|
            (e.0@, match e.1 {
                DocValue::Str(s) => s@,
                _ => "*"@,
            }, "npm"@),
    )
}

/// The dependencies of the object `field` of a `package.json`.
pub open spec fn npm_field_deps(doc: DocValue, field: Seq<char>) -> Seq<(Seq<char>, Seq<char>, Seq<char>)> {
    match get_spec(doc, field) {
        Some(DocValue::Table(t)) => npm_dep_list(t@),
        _ => Seq::empty(),
    }
}

fn push_npm_deps(doc: &DocValue, field: &str, deps: &mut Vec<Dep>)
    ensures
        dep_views(final(deps)@) == dep_views(old(deps)@) + npm_field_deps(*doc, field@),
{
    let ghost start = dep_views(deps@);
    match doc.get(field) {
        Some(DocValue::Table(t)) => {
            let mut i: usize = 0;
            while i < t.len()
                invariant
                    i <= t@.len(),
                    dep_views(deps@) == start + npm_dep_list(t@.take(i as int)),
                decreases t@.len() - i,
            {
                let v = match &t[i].1 {
                    DocValue::Str(s) => s.clone(),
                    _ => "*".to_string(),
                };
                push_dep(deps, t[i].0.clone(), v, "npm");
                assert(npm_dep_list(t@.take(i + 1)) =~= npm_dep_list(t@.take(i as int)).push(
                    (t@[i as int].0@, match t@[i as int].1 {
                        DocValue::Str(s) => s@,
                        _ => "*"@,
                    }, "npm"@),
                ));
                i = i + 1;
            }
            assert(t@.take(i as int) =~= t@);
        },
        _ => {
            assert(dep_views(deps@) =~= start + Seq::empty());
        },
    }
}

/// The manifest of a parsed `package.json`: name and version (empty
/// when absent), then `dependencies` and `devDependencies`.
pub fn parse_npm_doc(doc: &DocValue) -> (m: PackageManifest)
    ensures
        manifest_view(m) == ("npm"@, str_field(*doc, "name"@, ""@), str_field(*doc, "version"@, ""@), npm_field_deps(
            *doc,
            "dependencies"@,
        ) + npm_field_deps(*doc, "devDependencies"@)),
{
    let name = str_field_exec(doc, "name", "");
    let version = str_field_exec(doc, "version", "");
    let mut deps: Vec<Dep> = Vec::new();
    push_npm_deps(doc, "dependencies", &mut deps);
    push_npm_deps(doc, "devDependencies", &mut deps);
    assert(dep_views(deps@) =~= npm_field_deps(*doc, "dependencies"@) + npm_field_deps(*doc, "devDependencies"@));
    PackageManifest { kind: "npm".to_string(), name, version, deps }
}

/// A Python dependency specifier split into name and version: at the
/// first `==`, else `>=`, else `~=`, else `>`, both sides trimmed; a
/// specifier with none of these is a name with version `*`.
pub open spec fn split_requirement(spec: Seq<char>) -> (Seq<char>, Seq<char>) {
    match find_str(spec, "=="@) {
        Some(i) => (trim(spec.take(i)), trim(spec.skip(i + 2))),
        None => match find_str(spec, ">="@) {
            Some(i) => (trim(spec.take(i)), trim(spec.skip(i + 2))),
            None => match find_str(spec, "~="@) {
                Some(i) => (trim(spec.take(i)), trim(spec.skip(i + 2))),
                None => match find_str(spec, ">"@) {
                    Some(i) => (trim(spec.take(i)), trim(spec.skip(i + 1))),
                    None => (trim(spec), "*"@),
                },
            },
        },
    }
}

fn find_needle(s: &str, needle: &str) -> (r: Option<usize>)
    ensures
        match r {
            Some(i) => find_str(s@, needle@) == Some(i as int) && i + needle@.len() <= s@.len(),
            None => find_str(s@, needle@) is None,
        },
{
    let v = to_chars(s);
    let n = to_chars(needle);
    assert(v@.subrange(0, v@.len() as int) =~= v@);
    let r = crate::text::find_str_range(&v, 0, v.len(), &n);
    proof {
        crate::text::lemma_find_from_spec(s@, needle@, 0);
    }
    r
}

fn split_at_needle(s: &str, i: usize, width: usize) -> (r: (String, String))
    requires
        i + width <= s@.len(),
    ensures
        r.0@ == trim(s@.take(i as int)),
        r.1@ == trim(s@.skip(i + width)),
{
    let v = to_chars(s);
    let n = v.len();
    assert(i + width <= n);
    let a = string_of_range(&v, 0, i);
    let b = string_of_range(&v, i + width, n);
    assert(a@ =~= s@.take(i as int));
    assert(b@ =~= s@.skip(i + width));
    (trim_str(a.as_str()), trim_str(b.as_str()))
}

/// Splits a Python dependency specifier (see `split_requirement`).
pub fn split_requirement_exec(spec: &str) -> (r: (String, String))
    ensures
        (r.0@, r.1@) == split_requirement(spec@),
{
    proof {
        reveal_strlit("==");
        reveal_strlit(">=");
        reveal_strlit("~=");
        reveal_strlit(">");
    }
    match find_needle(spec, "==") {
        Some(i) => split_at_needle(spec, i, 2),
        None => match find_needle(spec, ">=") {
            Some(i) => split_at_needle(spec, i, 2),
            None => match find_needle(spec, "~=") {
                Some(i) => split_at_needle(spec, i, 2),
                None => match find_needle(spec, ">") {
                    Some(i) => split_at_needle(spec, i, 1),
                    None => (trim_str(spec), "*".to_string()),
                },
            },
        },
    }
}

/// The string items of an array (others are left out).
pub open spec fn string_items(a: Seq<DocValue>) -> Seq<Seq<char>>
    decreases a.len(),
{
    if a.len() == 0 {
        Seq::empty()
    } else {
        let rest = string_items(a.drop_last());
        match a.last() {
            DocValue::Str(s) => rest.push(s@),
            _ => rest,
        }
    }
}

/// Poetry's dependency table as specifiers `name==version` (`*` when
/// the version is not a string).
pub open spec fn poetry_specs(es: Seq<(String, DocValue)>) -> Seq<Seq<char>> {
    es.map_values(
        |e: (String, DocValue)|
            e.0@ + "=="@ + match e.1 {
                DocValue::Str(s) => s@,
                _ => "*"@,
            },
    )
}

/// The name, version and dependency specifiers of a `pyproject.toml`:
/// from the PEP 621 `[project]` table, else from `[tool.poetry]`.
pub open spec fn pyproject_parts(doc: DocValue) -> Option<(Seq<char>, Seq<char>, Seq<Seq<char>>)> {
    match get_spec(doc, "project"@) {
        Some(project) if project is Table => Some((
            str_field(project, "name"@, ""@),
            str_field(project, "version"@, ""@),
            match get_spec(project, "dependencies"@) {
                Some(DocValue::Array(a)) => string_items(a@),
                _ => Seq::empty(),
            },
        )),
        _ => match get_spec(doc, "tool"@) {
            Some(t) => match get_spec(t, "poetry"@) {
                Some(p) if p is Table => Some((
                    str_field(p, "name"@, ""@),
                    str_field(p, "version"@, ""@),
                    match get_spec(p, "dependencies"@) {
                        Some(DocValue::Table(d)) => poetry_specs(d@),
                        _ => Seq::empty(),
                    },
                )),
                _ => None,
            },
            None => None,
        },
    }
}

/// The dependencies of the specifiers.
pub open spec fn pypi_deps(specs: Seq<Seq<char>>) -> Seq<(Seq<char>, Seq<char>, Seq<char>)> {
    specs.map_values(|sp: Seq<char>| (split_requirement(sp).0, split_requirement(sp).1, "pypi"@))
}

/// The manifest a parsed `pyproject.toml` declares, or the error when
/// it has neither a `[project]` nor a `[tool.poetry]` table.
pub open spec fn pyproject_manifest(doc: DocValue) -> Result<(Seq<char>, Seq<char>, Seq<char>, Seq<(Seq<char>, Seq<char>, Seq<char>)>), Seq<char>> {
    match pyproject_parts(doc) {
        Some((n, v, specs)) => Ok(("pypi"@, n, v, pypi_deps(specs))),
        None => Err("missing [project] or [tool.poetry]"@),
    }
}

/// The manifest of a parsed `pyproject.toml` (`file` names it in
/// errors).
pub fn parse_pyproject_doc(doc: &DocValue, file: &str) -> (r: Result<PackageManifest, ManifestError>)
    ensures
        parse_view(r, file@) == pyproject_manifest(*doc),
{
    let mut specs: Vec<String> = Vec::new();
    let name: String;
    let version: String;
    let ghost parts = pyproject_parts(*doc);
    let project = match doc.get("project") {
        Some(p) => match p {
            DocValue::Table(_) => Some(p),
            _ => None,
        },
        None => None,
    };
    match project {
        Some(p) => {
            name = str_field_exec(p, "name", "");
            version = str_field_exec(p, "version", "");
            match p.get("dependencies") {
                Some(DocValue::Array(a)) => {
                    let mut i: usize = 0;
                    while i < a.len()
                        invariant
                            i <= a@.len(),
                            views(specs@) == string_items(a@.take(i as int)),
                        decreases a@.len() - i,
                    {
                        assert(a@.take(i + 1).drop_last() =~= a@.take(i as int));
                        assert(a@.take(i + 1).last() == a@[i as int]);
                        match &a[i] {
                            DocValue::Str(s) => {
                                let ghost before = views(specs@);
                                specs.push(s.clone());
                                assert(views(specs@) =~= before.push(s@));
                            },
                            _ => {},
                        }
                        i = i + 1;
                    }
                    assert(a@.take(i as int) =~= a@);
                },
                _ => {
                    assert(views(specs@) =~= Seq::empty());
                },
            }
        },
        None => {
            let poetry = match doc.get("tool") {
                Some(t) => match t.get("poetry") {
                    Some(p) => match p {
                        DocValue::Table(_) => Some(p),
                        _ => None,
                    },
                    None => None,
                },
                None => None,
            };
            match poetry {
                Some(p) => {
                    name = str_field_exec(p, "name", "");
                    version = str_field_exec(p, "version", "");
                    match p.get("dependencies") {
                        Some(DocValue::Table(d)) => {
                            let mut i: usize = 0;
                            while i < d.len()
                                invariant
                                    i <= d@.len(),
                                    views(specs@) == poetry_specs(d@.take(i as int)),
                                decreases d@.len() - i,
                            {
                                let v = match &d[i].1 {
                                    DocValue::Str(s) => s.clone(),
                                    _ => "*".to_string(),
                                };
                                let a = concat(d[i].0.as_str(), "==");
                                let sp = concat(a.as_str(), v.as_str());
                                let ghost before = views(specs@);
                                specs.push(sp);
                                assert(views(specs@) =~= before.push(sp@));
                                assert(poetry_specs(d@.take(i + 1)) =~= poetry_specs(d@.take(i as int)).push(sp@));
                                i = i + 1;
                            }
                            assert(d@.take(i as int) =~= d@);
                        },
                        _ => {
                            assert(views(specs@) =~= Seq::empty());
                        },
                    }
                },
                None => {
                    return Err(
                        ManifestError::ParseError {
                            file: file.to_string(),
                            message: "missing [project] or [tool.poetry]".to_string(),
                        },
                    );
                },
            }
        },
    }
    assert(parts is Some && parts.unwrap().2 == views(specs@));
    let mut deps: Vec<Dep> = Vec::new();
    let mut k: usize = 0;
    while k < specs.len()
        invariant
            k <= specs@.len(),
            dep_views(deps@) == pypi_deps(views(specs@).take(k as int)),
        decreases specs@.len() - k,
    {
        let (n, v) = split_requirement_exec(specs[k].as_str());
        push_dep(&mut deps, n, v, "pypi");
        assert(pypi_deps(views(specs@).take(k + 1)) =~= pypi_deps(views(specs@).take(k as int)).push(
            (split_requirement(specs@[k as int]@).0, split_requirement(specs@[k as int]@).1, "pypi"@),
        ));
        k = k + 1;
    }
    assert(views(specs@).take(k as int) =~= views(specs@));
    Ok(PackageManifest { kind: "pypi".to_string(), name, version, deps })
}

/// The manifest files a directory holds, in the order they are
/// preferred: `Cargo.toml`, a `.cabal` file, `package.json`,
/// `pyproject.toml`.
#[derive(Debug, Clone, Copy, PartialEq, Eq)]
pub enum ManifestFile {
    Cargo,
    Cabal,
    Npm,
    Pyproject,
}

/// Which manifest a directory's package is read from, given which of
/// the files it holds; nothing when it holds none.
pub fn preferred_manifest(has_cargo: bool, has_cabal: bool, has_npm: bool, has_pyproject: bool) -> (r: Option<ManifestFile>)
    ensures
        r == if has_cargo {
            Some(ManifestFile::Cargo)
        } else if has_cabal {
            Some(ManifestFile::Cabal)
        } else if has_npm {
            Some(ManifestFile::Npm)
        } else if has_pyproject {
            Some(ManifestFile::Pyproject)
        } else {
            None
        },
{
    if has_cargo {
        Some(ManifestFile::Cargo)
    } else if has_cabal {
        Some(ManifestFile::Cabal)
    } else if has_npm {
        Some(ManifestFile::Npm)
    } else if has_pyproject {
        Some(ManifestFile::Pyproject)
    } else {
        None
    }
}

// ---------------------------------------------------------------------
// Cabal files.
// ---------------------------------------------------------------------

/// What one line of a `.cabal` file gives a lookup of the ASCII field
/// `key`: the line is trimmed; when it is longer than the key (in
/// bytes), its first key-length bytes are compared with the key
/// ignoring ASCII case and the next byte must be `:`; the rest, trimmed,
/// is the value when it is not empty. `None` when the key-length cut is
/// not at a character boundary (the lookup panics there), `Some(None)`
/// when the line gives no value.
pub open spec fn cabal_line(line: Seq<char>, key: Seq<char>) -> Option<Option<Seq<char>>> {
    let t = trim(line);
    if byte_len(t) > key.len() {
        match char_index_at_byte(t, key.len()) {
            None => None,
            Some(k) => if k == key.len() && ascii_lower(t.take(k as int)) == ascii_lower(key) && t[k as int] == ':' {
                let v = trim(t.skip(k as int + 1));
                if v.len() > 0 {
                    Some(Some(v))
                } else {
                    Some(None)
                }
            } else {
                Some(None)
            },
        }
    } else {
        Some(None)
    }
}

/// The value of the first line that gives one (`Some(None)` when none
/// does); `None` when a line before it makes the lookup panic.
pub open spec fn cabal_lookup(ls: Seq<Seq<char>>, key: Seq<char>) -> Option<Option<Seq<char>>>
    decreases ls.len(),
{
    if ls.len() == 0 {
        Some(None)
    } else {
        match cabal_line(ls[0], key) {
            None => None,
            Some(Some(v)) => Some(Some(v)),
            Some(None) => cabal_lookup(ls.drop_first(), key),
        }
    }
}

proof fn lemma_index_at_byte_inside(t: Seq<char>, n: nat)
    requires
        byte_len(t) > n,
        char_index_at_byte(t, n) is Some,
    ensures
        char_index_at_byte(t, n)->0 < t.len(),
    decreases t.len(),
{
    if n > 0 {
        lemma_index_at_byte_inside(t.drop_first(), (n - char_bytes(t[0])) as nat);
    }
}

fn ascii_key_matches(tv: &Vec<char>, key: &Vec<char>) -> (b: bool)
    requires
        key@.len() <= tv@.len(),
    ensures
        b == (ascii_lower(tv@.take(key@.len() as int)) == ascii_lower(key@)),
{
    let mut i: usize = 0;
    while i < key.len()
        invariant
            i <= key@.len() <= tv@.len(),
            forall|j: int| 0 <= j < i ==> crate::text::ascii_lower_char(#[trigger] tv@[j]) == crate::text::ascii_lower_char(key@[j]),
        decreases key@.len() - i,
    {
        if crate::text::char_to_ascii_lower(tv[i]) != crate::text::char_to_ascii_lower(key[i]) {
            assert(ascii_lower(tv@.take(key@.len() as int))[i as int] != ascii_lower(key@)[i as int]);
            return false;
        }
        i = i + 1;
    }
    assert(ascii_lower(tv@.take(key@.len() as int)) =~= ascii_lower(key@));
    true
}

fn cabal_line_of(line: &str, key: &Vec<char>) -> (r: Option<Option<String>>)
    requires
        forall|j: int| 0 <= j < key@.len() ==> (#[trigger] key@[j] as u32) < 0x80,
    ensures
        match r {
            Some(v) => cabal_line(line@, key@) == Some(crate::v5::build::registry::opt_string_view(v)),
            None => cabal_line(line@, key@) is None,
        },
{
    let t = trim_str(line);
    let tv = to_chars(t.as_str());
    assert(tv@.subrange(0, tv@.len() as int) =~= tv@);
    let n = key.len();
    let longer = match crate::text::byte_len_range(&tv, 0, tv.len()) {
        Some(b) => b > n,
        None => true,
    };
    if !longer {
        return Some(None);
    }
    match crate::text::char_index_at_byte_range(&tv, 0, tv.len(), n) {
        None => None,
        Some(k) => {
            proof {
                lemma_index_at_byte_inside(tv@, n as nat);
            }
            if k == n && ascii_key_matches(&tv, key) && tv[k] == ':' {
                let (a, b) = crate::text::trim_range(&tv, k + 1, tv.len());
                assert(tv@.subrange(k + 1, tv@.len() as int) =~= tv@.skip(k + 1));
                if a < b {
                    Some(Some(string_of_range(&tv, a, b)))
                } else {
                    Some(None)
                }
            } else {
                Some(None)
            }
        },
    }
}

fn cabal_lookup_of(raw: &str, key: &str) -> (r: Option<Option<String>>)
    requires
        forall|j: int| 0 <= j < key@.len() ==> (#[trigger] key@[j] as u32) < 0x80,
    ensures
        match r {
            Some(v) => cabal_lookup(lines(raw@), key@) == Some(crate::v5::build::registry::opt_string_view(v)),
            None => cabal_lookup(lines(raw@), key@) is None,
        },
{
    let kv = to_chars(key);
    let ls = lines_of(raw);
    let ghost all = lines(raw@);
    let mut i: usize = 0;
    assert(all.skip(0) =~= all);
    while i < ls.len()
        invariant
            i <= ls@.len(),
            views(ls@) == all,
            all == lines(raw@),
            kv@ == key@,
            forall|j: int| 0 <= j < key@.len() ==> (#[trigger] key@[j] as u32) < 0x80,
            cabal_lookup(all, key@) == cabal_lookup(all.skip(i as int), key@),
        decreases ls@.len() - i,
    {
        let ghost rest = all.skip(i as int);
        assert(rest[0] == ls@[i as int]@);
        assert(rest.drop_first() =~= all.skip(i + 1));
        match cabal_line_of(ls[i].as_str(), &kv) {
            None => return None,
            Some(Some(v)) => return Some(Some(v)),
            Some(None) => {},
        }
        i = i + 1;
    }
    assert(all.skip(i as int) =~= Seq::<Seq<char>>::empty());
    Some(None)
}

/// Whether the lookups of `name:` and `version:` in a `.cabal` text go
/// through (no line is cut inside a character).
pub open spec fn cabal_readable(raw: Seq<char>) -> bool {
    cabal_lookup(lines(raw), "name"@) is Some && cabal_lookup(lines(raw), "version"@) is Some
}

/// The value of a lookup that went through, or nothing.
pub open spec fn looked_up(o: Option<Option<Seq<char>>>) -> Seq<char> {
    match o {
        Some(Some(v)) => v,
        _ => Seq::empty(),
    }
}

/// The manifest a `.cabal` text declares: its `name:` and `version:`
/// fields, no dependencies; an error when either is missing.
pub open spec fn cabal_manifest(raw: Seq<char>) -> Result<(Seq<char>, Seq<char>, Seq<char>, Seq<(Seq<char>, Seq<char>, Seq<char>)>), Seq<char>> {
    let name = looked_up(cabal_lookup(lines(raw), "name"@));
    let version = looked_up(cabal_lookup(lines(raw), "version"@));
    if name.len() == 0 || version.len() == 0 {
        Err("missing name: or version: field"@)
    } else {
        Ok(("cabal"@, name, version, Seq::empty()))
    }
}

proof fn lemma_ascii_keys()
    ensures
        forall|j: int| 0 <= j < "name"@.len() ==> (#[trigger] "name"@[j] as u32) < 0x80,
        forall|j: int| 0 <= j < "version"@.len() ==> (#[trigger] "version"@[j] as u32) < 0x80,
{
    reveal_strlit("name");
    reveal_strlit("version");
}

/// Whether `parse_cabal_text` can read `raw` (see `cabal_readable`).
pub fn cabal_text_readable(raw: &str) -> (b: bool)
    ensures
        b == cabal_readable(raw@),
{
    proof {
        lemma_ascii_keys();
    }
    cabal_lookup_of(raw, "name").is_some() && cabal_lookup_of(raw, "version").is_some()
}

/// The manifest of a `.cabal` text (`file` names it in errors).
/// Dependencies are not read: `build-depends` is scoped to sections.
pub fn parse_cabal_text(raw: &str, file: &str) -> (r: Result<PackageManifest, ManifestError>)
    requires
        cabal_readable(raw@),
    ensures
        parse_view(r, file@) == cabal_manifest(raw@),
{
    proof {
        lemma_ascii_keys();
    }
    let name = match cabal_lookup_of(raw, "name") {
        Some(Some(v)) => v,
        _ => String::new(),
    };
    let version = match cabal_lookup_of(raw, "version") {
        Some(Some(v)) => v,
        _ => String::new(),
    };
    if name.as_str().unicode_len() == 0 || version.as_str().unicode_len() == 0 {
        return Err(
            ManifestError::ParseError { file: file.to_string(), message: "missing name: or version: field".to_string() },
        );
    }
    let deps: Vec<Dep> = Vec::new();
    assert(dep_views(deps@) =~= Seq::empty());
    Ok(PackageManifest { kind: "cabal".to_string(), name, version, deps })
}

// ---------------------------------------------------------------------
// Manifests from their text.
// ---------------------------------------------------------------------

/// What parsing a manifest's text gives: the parse error (as a parse
/// error of `file`), or what the document-level reading gives.
pub open spec fn parsed_or(doc: Result<DocValue, Seq<char>>, read: spec_fn(DocValue) -> Result<
    (Seq<char>, Seq<char>, Seq<char>, Seq<(Seq<char>, Seq<char>, Seq<char>)>),
    Seq<char>,
>) -> Result<(Seq<char>, Seq<char>, Seq<char>, Seq<(Seq<char>, Seq<char>, Seq<char>)>), Seq<char>> {
    match doc {
        Err(m) => Err(m),
        Ok(d) => read(d),
    }
}

/// The manifest of a `Cargo.toml` text (`file` names it in errors): its
/// TOML parse error, or what `cargo_manifest` reads of the document.
pub fn parse_cargo_str(raw: &str, file: &str) -> (r: Result<PackageManifest, ManifestError>)
    ensures
        parse_view(r, file@) == parsed_or(toml_doc(raw@), |d: DocValue| cargo_manifest(d)),
{
    match parse_toml(raw) {
        Ok(doc) => parse_cargo_doc(&doc, file),
        Err(m) => Err(ManifestError::ParseError { file: file.to_string(), message: m }),
    }
}

/// The manifest of a `package.json` text: its JSON parse error, or what
/// `parse_npm_doc` reads of the document.
pub fn parse_npm_str(raw: &str, file: &str) -> (r: Result<PackageManifest, ManifestError>)
    ensures
        parse_view(r, file@) == parsed_or(
            json_doc(raw@),
            |d: DocValue|
                Ok(
                    (
                        "npm"@,
                        str_field(d, "name"@, ""@),
                        str_field(d, "version"@, ""@),
                        npm_field_deps(d, "dependencies"@) + npm_field_deps(d, "devDependencies"@),
                    ),
                ),
        ),
{
    match parse_json(raw) {
        Ok(doc) => Ok(parse_npm_doc(&doc)),
        Err(m) => Err(ManifestError::ParseError { file: file.to_string(), message: m }),
    }
}

/// The manifest of a `pyproject.toml` text: its TOML parse error, or
/// what `pyproject_manifest` reads of the document.
pub fn parse_pyproject_str(raw: &str, file: &str) -> (r: Result<PackageManifest, ManifestError>)
    ensures
        parse_view(r, file@) == parsed_or(toml_doc(raw@), |d: DocValue| pyproject_manifest(d)),
{
    match parse_toml(raw) {
        Ok(doc) => parse_pyproject_doc(&doc, file),
        Err(m) => Err(ManifestError::ParseError { file: file.to_string(), message: m }),
    }
}

/// The manifest of the preferred manifest file of a checkout (see
/// `preferred_manifest`), from its text; `file` names it in errors.
pub fn parse_manifest_text(kind: ManifestFile, raw: &str, file: &str) -> (r: Result<PackageManifest, ManifestError>)
    requires
        kind == ManifestFile::Cabal ==> cabal_readable(raw@),
    ensures
        parse_view(r, file@) == match kind {
            ManifestFile::Cargo => parsed_or(toml_doc(raw@), |d: DocValue| cargo_manifest(d)),
            ManifestFile::Cabal => cabal_manifest(raw@),
            ManifestFile::Npm => parsed_or(
                json_doc(raw@),
                |d: DocValue|
                    Ok(
                        (
                            "npm"@,
                            str_field(d, "name"@, ""@),
                            str_field(d, "version"@, ""@),
                            npm_field_deps(d, "dependencies"@) + npm_field_deps(d, "devDependencies"@),
                        ),
                    ),
            ),
            ManifestFile::Pyproject => parsed_or(toml_doc(raw@), |d: DocValue| pyproject_manifest(d)),
        },
{
    match kind {
        ManifestFile::Cargo => parse_cargo_str(raw, file),
        ManifestFile::Cabal => parse_cabal_text(raw, file),
        ManifestFile::Npm => parse_npm_str(raw, file),
        ManifestFile::Pyproject => parse_pyproject_str(raw, file),
    }
}

} // verus!
